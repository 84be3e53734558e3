//! The API of the radio module: requests, responses, and what they mean.

use crate::bigint;
use crate::crypto::Network;
use crate::digest::utf8_text;
use crate::error::Error;
use crate::error::ValueField;
use crate::hexcode;
use crate::lsdl::Permission;
use crate::lsdl::ValueType;
use crate::net::SocketAddr;
use crate::storage::value;
use crate::storage::value::StoredField;
use crate::storage::value::Value;
use crate::storage::value::ValueData;
use crate::storage::value::ValueDescription;
use crate::storage::value::ValueFormat;
use crate::time::NANOS_PER_MILLI;
use crate::time::Nanos;
use crate::utils::text_is;
use vstd::prelude::*;
use vstd::utf8::*;

verus! {

pub const API_VERSION: u8 = 1;

/// The port of the radio module's API.
pub const API_PORT: u16 = 8888;

/// The commands of the radio module.
#[derive(Clone, Copy, Debug, PartialEq, Eq, Structural)]
pub enum ApiCommand {
    SetNetworkKey,
    SetMacAddress,
    WakeupDevice,
    ResetDeviceNonce,
    SetTxMacCounter,
    GetMacAddress,
    GetAntennaDiversityMode,
    SetAntennaDiversityMode,
    GetAntennaDiversity,
    SetAntennaDiversity,
    GetAntennaIntExt,
    SetAntennaIntExt,
    GetAppVersion,
    GetTxMacCounter,
    Si4467StartCW,
    Si4467StopTx,
}

impl ApiCommand {
    pub open spec fn spec_code(self) -> u8 {
        match self {
            ApiCommand::SetNetworkKey => 0x01,
            ApiCommand::SetMacAddress => 0x02,
            ApiCommand::WakeupDevice => 0x03,
            ApiCommand::ResetDeviceNonce => 0x04,
            ApiCommand::SetTxMacCounter => 0x05,
            ApiCommand::GetMacAddress => 0x06,
            ApiCommand::GetAntennaDiversityMode => 0x07,
            ApiCommand::SetAntennaDiversityMode => 0x08,
            ApiCommand::GetAntennaDiversity => 0x09,
            ApiCommand::SetAntennaDiversity => 0x0a,
            ApiCommand::GetAntennaIntExt => 0x0b,
            ApiCommand::SetAntennaIntExt => 0x0c,
            ApiCommand::GetAppVersion => 0x0d,
            ApiCommand::GetTxMacCounter => 0x0e,
            ApiCommand::Si4467StartCW => 0xe0,
            ApiCommand::Si4467StopTx => 0xe1,
        }
    }

    pub fn code(&self) -> (res: u8)
        ensures
            res == self.spec_code(),
    {
        match self {
            ApiCommand::SetNetworkKey => 0x01,
            ApiCommand::SetMacAddress => 0x02,
            ApiCommand::WakeupDevice => 0x03,
            ApiCommand::ResetDeviceNonce => 0x04,
            ApiCommand::SetTxMacCounter => 0x05,
            ApiCommand::GetMacAddress => 0x06,
            ApiCommand::GetAntennaDiversityMode => 0x07,
            ApiCommand::SetAntennaDiversityMode => 0x08,
            ApiCommand::GetAntennaDiversity => 0x09,
            ApiCommand::SetAntennaDiversity => 0x0a,
            ApiCommand::GetAntennaIntExt => 0x0b,
            ApiCommand::SetAntennaIntExt => 0x0c,
            ApiCommand::GetAppVersion => 0x0d,
            ApiCommand::GetTxMacCounter => 0x0e,
            ApiCommand::Si4467StartCW => 0xe0,
            ApiCommand::Si4467StopTx => 0xe1,
        }
    }
}

/// The results of the radio module.
#[derive(Clone, Copy, Debug, PartialEq, Eq, Structural)]
pub enum ApiResultCode {
    Okay,
    IfaceNotFound,
    CantSetKey,
    CantSetMacAddress,
    UnsupportedCommand,
    LockTimeout,
    WakeupFailed,
    CantSave,
    CantSetTxMacCounter,
    CantResetTxMacCounter,
    TxMacCounterWouldDecrease,
    CantGetKey,
    CantResetTxMacCtr,
    CantGetMacAddress,
    Si4467CommandFailed,
    Si4467ContextNotFound,
    InvalidArgument,
    NoHwSupport,
    CantGetTxMacCounter,
}

impl ApiResultCode {
    pub open spec fn spec_code(self) -> u8 {
        match self {
            ApiResultCode::Okay => 0x00,
            ApiResultCode::IfaceNotFound => 0x01,
            ApiResultCode::CantSetKey => 0x02,
            ApiResultCode::CantSetMacAddress => 0x03,
            ApiResultCode::UnsupportedCommand => 0x04,
            ApiResultCode::LockTimeout => 0x05,
            ApiResultCode::WakeupFailed => 0x06,
            ApiResultCode::CantSave => 0x07,
            ApiResultCode::CantSetTxMacCounter => 0x08,
            ApiResultCode::CantResetTxMacCounter => 0x09,
            ApiResultCode::TxMacCounterWouldDecrease => 0x0a,
            ApiResultCode::CantGetKey => 0x0b,
            ApiResultCode::CantResetTxMacCtr => 0x0c,
            ApiResultCode::CantGetMacAddress => 0x0d,
            ApiResultCode::Si4467CommandFailed => 0x0e,
            ApiResultCode::Si4467ContextNotFound => 0x0f,
            ApiResultCode::InvalidArgument => 0x10,
            ApiResultCode::NoHwSupport => 0x11,
            ApiResultCode::CantGetTxMacCounter => 0x12,
        }
    }

    pub fn code(&self) -> (res: u8)
        ensures
            res == self.spec_code(),
    {
        match self {
            ApiResultCode::Okay => 0x00,
            ApiResultCode::IfaceNotFound => 0x01,
            ApiResultCode::CantSetKey => 0x02,
            ApiResultCode::CantSetMacAddress => 0x03,
            ApiResultCode::UnsupportedCommand => 0x04,
            ApiResultCode::LockTimeout => 0x05,
            ApiResultCode::WakeupFailed => 0x06,
            ApiResultCode::CantSave => 0x07,
            ApiResultCode::CantSetTxMacCounter => 0x08,
            ApiResultCode::CantResetTxMacCounter => 0x09,
            ApiResultCode::TxMacCounterWouldDecrease => 0x0a,
            ApiResultCode::CantGetKey => 0x0b,
            ApiResultCode::CantResetTxMacCtr => 0x0c,
            ApiResultCode::CantGetMacAddress => 0x0d,
            ApiResultCode::Si4467CommandFailed => 0x0e,
            ApiResultCode::Si4467ContextNotFound => 0x0f,
            ApiResultCode::InvalidArgument => 0x10,
            ApiResultCode::NoHwSupport => 0x11,
            ApiResultCode::CantGetTxMacCounter => 0x12,
        }
    }

    /// The result with this code, if there is one.
    pub fn from_u8(code: u8) -> (res: Option<Self>)
        ensures
            match res {
                Some(result) => result.spec_code() == code,
                None => code > 0x12,
            },
    {
        match code {
            0x00 => Some(ApiResultCode::Okay),
            0x01 => Some(ApiResultCode::IfaceNotFound),
            0x02 => Some(ApiResultCode::CantSetKey),
            0x03 => Some(ApiResultCode::CantSetMacAddress),
            0x04 => Some(ApiResultCode::UnsupportedCommand),
            0x05 => Some(ApiResultCode::LockTimeout),
            0x06 => Some(ApiResultCode::WakeupFailed),
            0x07 => Some(ApiResultCode::CantSave),
            0x08 => Some(ApiResultCode::CantSetTxMacCounter),
            0x09 => Some(ApiResultCode::CantResetTxMacCounter),
            0x0a => Some(ApiResultCode::TxMacCounterWouldDecrease),
            0x0b => Some(ApiResultCode::CantGetKey),
            0x0c => Some(ApiResultCode::CantResetTxMacCtr),
            0x0d => Some(ApiResultCode::CantGetMacAddress),
            0x0e => Some(ApiResultCode::Si4467CommandFailed),
            0x0f => Some(ApiResultCode::Si4467ContextNotFound),
            0x10 => Some(ApiResultCode::InvalidArgument),
            0x11 => Some(ApiResultCode::NoHwSupport),
            0x12 => Some(ApiResultCode::CantGetTxMacCounter),
            _ => None,
        }
    }
}

/// Who controls the choice of the antenna.
#[derive(Clone, Copy, Debug, PartialEq, Eq, Structural)]
pub enum DiversityMode {
    Mcu,
    Trx,
}

impl DiversityMode {
    pub fn code(&self) -> (res: u8)
        ensures
            res == (match self {
                DiversityMode::Mcu => 0u8,
                DiversityMode::Trx => 1u8,
            }),
    {
        match self {
            DiversityMode::Mcu => 0,
            DiversityMode::Trx => 1,
        }
    }
}

/// A response of the radio module. Its length is that of its data.
#[derive(Debug)]
pub struct ApiResponse {
    pub api_version: u8,
    pub result_code: ApiResultCode,
    pub data: Vec<u8>,
}

/// A request or a response: the API version, a code, the length of the data, and
/// the data.
pub open spec fn frame(code: u8, data: Seq<u8>) -> Seq<u8> {
    seq![API_VERSION, code, data.len() as u8] + data
}

fn make_frame(version: u8, code: u8, data: &[u8]) -> (res: Vec<u8>)
    requires
        data@.len() <= 255,
    ensures
        res@ == seq![version, code, data@.len() as u8] + data@,
{
    let mut res: Vec<u8> = Vec::new();
    res.push(version);
    res.push(code);
    res.push(data.len() as u8);
    res.extend_from_slice(data);
    assert(res@ =~= seq![version, code, data@.len() as u8] + data@);
    res
}

/// The request for a command with some data.
pub fn request_unchecked(command: ApiCommand, data: &[u8]) -> (res: Result<Vec<u8>, Error>)
    ensures
        match res {
            Ok(request) => data@.len() <= 255 && request@ == frame(command.spec_code(), data@),
            Err(e) => data@.len() > 255 && e == Error::OutOfRange,
        },
{
    if data.len() > 255 {
        return Err(Error::OutOfRange);
    }
    Ok(make_frame(API_VERSION, command.code(), data))
}

/// The request that a client sent to be passed on. It has to be of the API
/// version that is known here; whether the command is known, the radio module
/// has to say.
pub fn client_request(api_version: u8, command: u8, payload: &[u8]) -> (res: Result<Vec<u8>, Error>)
    requires
        payload@.len() <= 255,
    ensures
        match res {
            Ok(request) => api_version == API_VERSION && request@ == frame(command, payload@),
            Err(e) => api_version != API_VERSION && e == Error::InvalidApiVersion,
        },
{
    if api_version != API_VERSION {
        return Err(Error::InvalidApiVersion);
    }
    Ok(make_frame(api_version, command, payload))
}

/// The response that a client gets.
pub fn client_response(response: &ApiResponse) -> (res: Vec<u8>)
    requires
        response.data@.len() <= 255,
    ensures
        res@ == seq![
            response.api_version,
            response.result_code.spec_code(),
            response.data@.len() as u8,
        ] + response.data@,
{
    make_frame(response.api_version, response.result_code.code(), response.data.as_slice())
}

/// How far a request to the radio module has come.
#[derive(Clone, Copy, Debug, PartialEq, Eq, Structural)]
pub enum RawStage {
    /// The first byte has to be written.
    WriteFirst,
    /// The connection was gone: the first byte has to be written to a new one.
    WriteFirstAgain,
    WriteRest,
    ReadVersion,
    ReadCode,
    ReadLength(ApiResultCode),
    ReadData(ApiResultCode, u8),
    Over,
}

/// What has happened to a request to the radio module.
#[derive(Debug)]
pub enum RawEvent {
    Failed,
    /// What had to be written was written.
    Written,
    /// A byte was read.
    Byte(u8),
    /// The data was read.
    Data(Vec<u8>),
}

/// What to do for a request to the radio module.
#[derive(Debug)]
pub enum RawAction {
    /// Close the connection, open a new one, and write the first byte to it.
    Reconnect,
    WriteRest,
    ReadByte,
    ReadData(u8),
    Done(ApiResponse),
    /// Give up, and close the connection where it is no longer in order.
    Fail(Error, bool),
}

/// Whether an event can come at a stage.
pub open spec fn is_expected(stage: RawStage, event: RawEvent) -> bool {
    match event {
        RawEvent::Failed => stage != RawStage::Over,
        RawEvent::Written => stage == RawStage::WriteFirst || stage == RawStage::WriteFirstAgain
            || stage == RawStage::WriteRest,
        RawEvent::Byte(byte) => match stage {
            RawStage::ReadVersion | RawStage::ReadLength(_) => true,
            RawStage::ReadCode => byte <= 0x12,
            _ => false,
        },
        RawEvent::Data(data) => stage matches RawStage::ReadData(_, length) && data@.len()
            == length,
    }
}

/// Goes on with a request to the radio module. The connection may have been
/// closed since the last one: the first byte shows that, and is written once
/// more to a new connection. A result code has to be a known one.
pub fn raw_step(stage: RawStage, event: RawEvent) -> (res: (RawStage, RawAction))
    requires
        is_expected(stage, event),
    ensures
        match event {
            RawEvent::Failed => if stage == RawStage::WriteFirst {
                res == (RawStage::WriteFirstAgain, RawAction::Reconnect)
            } else {
                res == (RawStage::Over, RawAction::Fail(Error::ConnectionLost, true))
            },
            RawEvent::Written => if stage == RawStage::WriteRest {
                res == (RawStage::ReadVersion, RawAction::ReadByte)
            } else {
                res == (RawStage::WriteRest, RawAction::WriteRest)
            },
            RawEvent::Byte(byte) => match stage {
                RawStage::ReadVersion => if byte == API_VERSION {
                    res == (RawStage::ReadCode, RawAction::ReadByte)
                } else {
                    res == (RawStage::Over, RawAction::Fail(Error::InvalidApiVersion, false))
                },
                RawStage::ReadCode => res.1 == RawAction::ReadByte && (res.0 matches
                    RawStage::ReadLength(code) && code.spec_code() == byte),
                RawStage::ReadLength(code) => res == (
                    RawStage::ReadData(code, byte),
                    RawAction::ReadData(byte),
                ),
                _ => true,
            },
            RawEvent::Data(data) => match stage {
                RawStage::ReadData(code, length) => {
                    &&& res.0 == RawStage::Over
                    &&& res.1 == RawAction::Done(
                        ApiResponse { api_version: API_VERSION, result_code: code, data },
                    )
                },
                _ => true,
            },
        },
{
    match event {
        RawEvent::Failed => {
            if stage == RawStage::WriteFirst {
                (RawStage::WriteFirstAgain, RawAction::Reconnect)
            } else {
                (RawStage::Over, RawAction::Fail(Error::ConnectionLost, true))
            }
        },
        RawEvent::Written => {
            if stage == RawStage::WriteRest {
                (RawStage::ReadVersion, RawAction::ReadByte)
            } else {
                (RawStage::WriteRest, RawAction::WriteRest)
            }
        },
        RawEvent::Byte(byte) => match stage {
            RawStage::ReadVersion => {
                if byte == API_VERSION {
                    (RawStage::ReadCode, RawAction::ReadByte)
                } else {
                    (RawStage::Over, RawAction::Fail(Error::InvalidApiVersion, false))
                }
            },
            RawStage::ReadCode => match ApiResultCode::from_u8(byte) {
                Some(code) => (RawStage::ReadLength(code), RawAction::ReadByte),
                None => (RawStage::Over, RawAction::Fail(Error::InvalidApiVersion, true)),
            },
            RawStage::ReadLength(code) => (
                RawStage::ReadData(code, byte),
                RawAction::ReadData(byte),
            ),
            _ => (RawStage::Over, RawAction::Fail(Error::InvalidApiVersion, true)),
        },
        RawEvent::Data(data) => match stage {
            RawStage::ReadData(code, _) => (
                RawStage::Over,
                RawAction::Done(ApiResponse { api_version: API_VERSION, result_code: code, data }),
            ),
            _ => (RawStage::Over, RawAction::Fail(Error::InvalidApiVersion, true)),
        },
    }
}

/// The data of a response, where the radio module did what it was asked for.
pub fn checked_response(response: ApiResponse) -> (res: Result<ApiResponse, Error>)
    ensures
        if response.result_code == ApiResultCode::Okay {
            res == Ok::<ApiResponse, Error>(response)
        } else {
            res == Err::<ApiResponse, Error>(Error::ApiError(response.result_code))
        },
{
    if response.result_code == ApiResultCode::Okay {
        Ok(response)
    } else {
        Err(Error::ApiError(response.result_code))
    }
}

/// Whether the hardware has antenna diversity, by what the radio module answers
/// when its mode is set.
pub fn antenna_diversity_result(code: ApiResultCode) -> (res: Result<bool, Error>)
    ensures
        res == (match code {
            ApiResultCode::Okay => Ok::<bool, Error>(true),
            ApiResultCode::NoHwSupport => Ok::<bool, Error>(false),
            _ => Err::<bool, Error>(Error::ApiError(code)),
        }),
{
    match code {
        ApiResultCode::Okay => Ok(true),
        ApiResultCode::NoHwSupport => Ok(false),
        _ => Err(Error::ApiError(code)),
    }
}

/// Whether waking up a device may still succeed: only the device's confirmation
/// tells whether it did.
pub fn wakeup_result(code: ApiResultCode) -> (res: Result<(), Error>)
    ensures
        res == (match code {
            ApiResultCode::Okay | ApiResultCode::WakeupFailed => Ok::<(), Error>(()),
            _ => Err::<(), Error>(Error::ApiError(code)),
        }),
{
    match code {
        ApiResultCode::Okay | ApiResultCode::WakeupFailed => Ok(()),
        _ => Err(Error::ApiError(code)),
    }
}

/// The `count` lowest bytes of a number, the lowest one first.
pub open spec fn le_bytes_of(number: nat, count: nat) -> Seq<u8>
    decreases count,
{
    if count == 0 {
        Seq::empty()
    } else {
        seq![(number % 256) as u8] + le_bytes_of(number / 256, (count - 1) as nat)
    }
}

/// The number that bytes stand for, the lowest one first.
pub open spec fn le_value(bytes: Seq<u8>) -> nat
    decreases bytes.len(),
{
    if bytes.len() == 0 {
        0
    } else {
        bytes[0] as nat + 256 * le_value(bytes.skip(1))
    }
}

/// Reading the bytes of a number gives the number back, as long as it fits.
pub proof fn law_le_bytes_round_trip(number: nat, count: nat)
    requires
        number < vstd::arithmetic::power2::pow2(8 * count),
    ensures
        le_bytes_of(number, count).len() == count,
        le_value(le_bytes_of(number, count)) == number,
    decreases count,
{
    vstd::arithmetic::power2::lemma2_to64();
    if count > 0 {
        let rest = (count - 1) as nat;
        vstd::arithmetic::power2::lemma_pow2_adds(8 * rest, 8);
        assert(8 * rest + 8 == 8 * count);
        assert(number / 256 < vstd::arithmetic::power2::pow2(8 * rest));
        law_le_bytes_round_trip(number / 256, rest);
        let bytes = le_bytes_of(number, count);
        assert(bytes.skip(1) =~= le_bytes_of(number / 256, rest));
    }
}

fn le_bytes(number: u64, count: usize) -> (res: Vec<u8>)
    requires
        count <= 8,
    ensures
        res@ == le_bytes_of(number as nat, count as nat),
{
    let mut res: Vec<u8> = Vec::new();
    let mut rest: u64 = number;
    let mut i: usize = 0;
    assert(res@ + le_bytes_of(number as nat, count as nat) =~= le_bytes_of(
        number as nat,
        count as nat,
    ));
    while i < count
        invariant
            i <= count <= 8,
            res@ + le_bytes_of(rest as nat, (count - i) as nat) == le_bytes_of(
                number as nat,
                count as nat,
            ),
        decreases count - i,
    {
        let byte: u8 = (rest % 256) as u8;
        proof {
            let left = (count - i) as nat;
            assert(res@ + (seq![byte] + le_bytes_of(rest as nat / 256, (left - 1) as nat))
                =~= res@.push(byte) + le_bytes_of(rest as nat / 256, (left - 1) as nat));
        }
        res.push(byte);
        rest = rest / 256;
        i += 1;
    }
    assert(res@ + Seq::<u8>::empty() =~= res@);
    res
}

/// The data of the request to wake up a device: how long in milliseconds, the
/// device, and the channel on which it listens.
pub fn wakeup_data(address: &[u8; 6], duration: Nanos, channel: u8) -> (res: Result<Vec<u8>, Error>)
    ensures
        match res {
            Ok(data) => {
                &&& duration / NANOS_PER_MILLI <= u32::MAX
                &&& data@ == le_bytes_of((duration / NANOS_PER_MILLI) as nat, 4) + address@ + seq![
                    channel,
                ]
            },
            Err(e) => duration / NANOS_PER_MILLI > u32::MAX && e == Error::OutOfRange,
        },
{
    let millis: u128 = duration / NANOS_PER_MILLI;
    if millis > 0xffff_ffff {
        return Err(Error::OutOfRange);
    }
    let mut data: Vec<u8> = le_bytes(millis as u64, 4);
    data.push(address[0]);
    data.push(address[1]);
    data.push(address[2]);
    data.push(address[3]);
    data.push(address[4]);
    data.push(address[5]);
    data.push(channel);
    assert(data@ =~= le_bytes_of(millis as nat, 4) + address@ + seq![channel]);
    Ok(data)
}

/// The data of the request to set the counter of sent frames.
pub fn tx_mac_counter_data(counter: u64) -> (res: Vec<u8>)
    ensures
        res@ == le_bytes_of(counter as nat, 8),
{
    le_bytes(counter, 8)
}

/// The counter of sent frames that a response holds. It is always eight bytes.
pub fn tx_mac_counter(data: &[u8]) -> (res: u64)
    requires
        data@.len() == 8,
    ensures
        res == le_value(data@),
{
    proof {
        reveal_with_fuel(le_value, 9);
        assert(data@.skip(1).skip(1) =~= data@.skip(2));
        assert(data@.skip(2).skip(1) =~= data@.skip(3));
        assert(data@.skip(3).skip(1) =~= data@.skip(4));
        assert(data@.skip(4).skip(1) =~= data@.skip(5));
        assert(data@.skip(5).skip(1) =~= data@.skip(6));
        assert(data@.skip(6).skip(1) =~= data@.skip(7));
        assert(data@.skip(7).skip(1).len() == 0);
    }
    let high: u64 = data[4] as u64 + 0x100 * (data[5] as u64 + 0x100 * (data[6] as u64 + 0x100
        * data[7] as u64));
    data[0] as u64 + 0x100 * (data[1] as u64 + 0x100 * (data[2] as u64 + 0x100 * (data[3] as u64
        + 0x100 * high)))
}

/// The counter of sent frames that stands for a stored one: the ten lowest bits
/// are not stored.
pub open spec fn restored_counter(stored: u32) -> int {
    stored * 1024
}

/// Whether the counter of the radio module has to be set, and to what: it must
/// never go back.
pub fn counter_to_restore(stored: u32, current: u64) -> (res: Option<u64>)
    ensures
        res == (if restored_counter(stored) > current {
            Some(restored_counter(stored) as u64)
        } else {
            None
        }),
        res matches Some(counter) ==> counter > current,
{
    let raw: u64 = stored as u64 * 1024;
    if raw > current {
        Some(raw)
    } else {
        None
    }
}

/// The counter in a stored value: four bytes, the highest one first.
pub fn stored_counter(value: &Value) -> (res: Result<u32, Error>)
    ensures
        match (value.data, res) {
            (ValueData::Binary(bytes), Ok(counter)) => bytes@.len() == 4 && counter == bigint::be_value(
                bytes@,
            ),
            (ValueData::Binary(bytes), Err(e)) => bytes@.len() != 4 && e == Error::InvalidSize,
            (_, Ok(_)) => false,
            (_, Err(e)) => e == Error::TypeMismatch,
        },
{
    let bytes = value.as_binary()?;
    if bytes.len() != 4 {
        return Err(Error::InvalidSize);
    }
    proof {
        reveal_with_fuel(bigint::be_value, 5);
        let b = bytes@;
        assert(b.drop_last().drop_last() =~= b.take(2));
        assert(b.take(2).drop_last() =~= b.take(1));
        assert(b.take(1).drop_last().len() == 0);
        assert(b.drop_last().last() == b[2]);
    }
    Ok(
        bytes[3] as u32 + 0x100 * (bytes[2] as u32 + 0x100 * (bytes[1] as u32 + 0x100
            * bytes[0] as u32)),
    )
}

/// The bytes that a stored text gives; none if it is not hexadecimal.
pub open spec fn stored_bytes(text: Seq<char>) -> Seq<u8> {
    if hexcode::is_hex_text(text) {
        hexcode::hex_bytes(text)
    } else {
        Seq::empty()
    }
}

/// The counter in a file that holds a value. It is always the first value, and
/// can be read even if nothing else of the device can.
pub fn load_counter(entries: &[StoredField]) -> (res: Result<u32, Error>)
    ensures
        if value::first_duplicate(entries@) is Some {
            res == Err::<u32, Error>(
                Error::DuplicateField(value::first_duplicate(entries@)->0),
            )
        } else if value::stored_id(entries@) is None {
            res == Err::<u32, Error>(Error::MissingField(ValueField::Id))
        } else if value::stored_timestamp(entries@) is None {
            res == Err::<u32, Error>(Error::MissingField(ValueField::Timestamp))
        } else if value::stored_text(entries@) is None {
            res == Err::<u32, Error>(Error::MissingField(ValueField::Value))
        } else if value::stored_id(entries@) != Some(1u32) {
            res == Err::<u32, Error>(Error::NoValueDescription)
        } else {
            let bytes = stored_bytes(value::stored_text(entries@)->0);
            if bytes.len() == 4 {
                res matches Ok(counter) && counter == bigint::be_value(bytes)
            } else {
                res == Err::<u32, Error>(Error::InvalidSize)
            }
        },
{
    let mut descriptions: Vec<ValueDescription> = Vec::new();
    descriptions.push(
        ValueDescription {
            id: 1,
            permission: Permission::ReadWrite,
            name: None,
            type_id: ValueType::Counter,
            format: ValueFormat::Binary { max_length: 4 },
            persistent: false,
            virtual_value: false,
        },
    );
    proof {
        reveal_with_fuel(value::description_for, 2);
        assert(descriptions@.drop_last() =~= Seq::empty());
    }
    let value = Value::load(entries, None, descriptions.as_slice())?;
    stored_counter(&value)
}

/// The requests that a radio module gets at start, in this order: for its
/// version, its MAC address, the network key, the choice of the antenna, and for
/// its counter of sent frames.
pub open spec fn setup_frames(mac: Seq<u8>, network_key: Seq<u8>) -> Seq<Seq<u8>> {
    seq![
        frame(ApiCommand::GetAppVersion.spec_code(), Seq::empty()),
        frame(ApiCommand::SetMacAddress.spec_code(), mac),
        frame(ApiCommand::SetNetworkKey.spec_code(), network_key),
        frame(ApiCommand::SetAntennaDiversityMode.spec_code(), seq![1u8]),
        frame(ApiCommand::GetTxMacCounter.spec_code(), Seq::empty()),
    ]
}

/// The requests that a radio module gets at start.
pub fn setup_requests(mac: &[u8; 6], network: &Network) -> (res: Result<Vec<Vec<u8>>, Error>)
    ensures
        res matches Ok(requests) && requests@.map_values(|request: Vec<u8>| request@)
            == setup_frames(mac@, network.spec_network_key()),
{
    let none: [u8; 0] = [];
    let mode: [u8; 1] = [DiversityMode::Trx.code()];
    assert(none@ =~= Seq::empty());
    assert(mode@ =~= seq![1u8]);
    let mut requests: Vec<Vec<u8>> = Vec::new();
    requests.push(request_unchecked(ApiCommand::GetAppVersion, &none)?);
    requests.push(request_unchecked(ApiCommand::SetMacAddress, mac)?);
    requests.push(request_unchecked(ApiCommand::SetNetworkKey, network.raw_network_key())?);
    requests.push(request_unchecked(ApiCommand::SetAntennaDiversityMode, &mode)?);
    requests.push(request_unchecked(ApiCommand::GetTxMacCounter, &none)?);
    assert(requests@.map_values(|request: Vec<u8>| request@) =~= setup_frames(
        mac@,
        network.spec_network_key(),
    ));
    Ok(requests)
}

/// An address of an interface.
#[derive(Clone, Copy, Debug, PartialEq, Eq, Structural)]
pub enum InterfaceAddr {
    Missing,
    /// Not an IPv6 address.
    Other,
    /// An IPv6 address that could not be read.
    Unreadable,
    Inet6(SocketAddr),
}

/// An entry of the list of interfaces.
#[derive(Debug)]
pub struct InterfaceEntry {
    pub name: String,
    pub address: InterfaceAddr,
    pub destination: InterfaceAddr,
}

/// The two ends of a point to point interface.
#[derive(Clone, Copy, Debug, PartialEq, Eq, Structural)]
pub struct Ifaddr {
    pub address: SocketAddr,
    pub destination: SocketAddr,
}

impl Ifaddr {
    /// Where the radio module takes requests.
    pub fn api_address(&self) -> (res: SocketAddr)
        ensures
            res == self.destination.with_port(API_PORT),
    {
        let mut address: SocketAddr = self.destination;
        address.set_port(API_PORT);
        address
    }
}

/// Whether an entry is one of the interface with this name that has both ends
/// and an IPv6 address.
pub open spec fn is_candidate(entry: InterfaceEntry, name: Seq<char>) -> bool {
    &&& entry.name@ == name
    &&& entry.address == InterfaceAddr::Unreadable || entry.address is Inet6
    &&& entry.destination != InterfaceAddr::Missing
}

/// The two ends in a candidate.
pub open spec fn candidate_ends(entry: InterfaceEntry) -> Option<Ifaddr> {
    match (entry.address, entry.destination) {
        (InterfaceAddr::Inet6(address), InterfaceAddr::Inet6(destination)) => Some(
            Ifaddr { address, destination },
        ),
        _ => None,
    }
}

/// What the first `count` entries give for an interface: nothing yet, its two
/// ends, or an error.
pub open spec fn scan_interfaces(
    entries: Seq<InterfaceEntry>,
    name: Seq<char>,
    count: int,
) -> Result<Option<Ifaddr>, Error>
    decreases count,
{
    if count <= 0 {
        Ok(None)
    } else {
        match scan_interfaces(entries, name, count - 1) {
            Err(e) => Err(e),
            Ok(found) => {
                let entry = entries[count - 1];
                if !is_candidate(entry, name) {
                    Ok(found)
                } else if candidate_ends(entry) is None {
                    Err(Error::UnsupportedAddress)
                } else if found is Some {
                    Err(Error::MultipleAddresses)
                } else {
                    Ok(candidate_ends(entry))
                }
            },
        }
    }
}

proof fn lemma_scan_error(entries: Seq<InterfaceEntry>, name: Seq<char>, i: int)
    requires
        0 <= i <= entries.len(),
        scan_interfaces(entries, name, i) is Err,
    ensures
        scan_interfaces(entries, name, entries.len() as int) == scan_interfaces(entries, name, i),
    decreases entries.len() - i,
{
    if i < entries.len() {
        lemma_scan_error(entries, name, i + 1);
    }
}

/// The two ends of the interface with this name. There has to be exactly one
/// entry with IPv6 addresses for it.
pub fn get_rm_addr(entries: &[InterfaceEntry], name: &str) -> (res: Result<Ifaddr, Error>)
    ensures
        match scan_interfaces(entries@, name@, entries@.len() as int) {
            Err(e) => res == Err::<Ifaddr, Error>(e),
            Ok(None) => res == Err::<Ifaddr, Error>(Error::NoAddress),
            Ok(Some(ifaddr)) => res == Ok::<Ifaddr, Error>(ifaddr),
        },
{
    let mut found: Option<Ifaddr> = None;
    let mut i: usize = 0;
    while i < entries.len()
        invariant
            i <= entries@.len(),
            scan_interfaces(entries@, name@, i as int) == Ok::<Option<Ifaddr>, Error>(found),
        decreases entries@.len() - i,
    {
        let entry = &entries[i];
        let candidate: bool = text_is(&entry.name, name) && match entry.address {
            InterfaceAddr::Unreadable => true,
            InterfaceAddr::Inet6(_) => true,
            _ => false,
        } && entry.destination != InterfaceAddr::Missing;
        if candidate {
            match (entry.address, entry.destination) {
                (InterfaceAddr::Inet6(address), InterfaceAddr::Inet6(destination)) => {
                    if found.is_some() {
                        proof {
                            lemma_scan_error(entries@, name@, i + 1);
                        }
                        return Err(Error::MultipleAddresses);
                    }
                    found = Some(Ifaddr { address, destination });
                },
                _ => {
                    proof {
                        lemma_scan_error(entries@, name@, i + 1);
                    }
                    return Err(Error::UnsupportedAddress);
                },
            }
        }
        i += 1;
    }
    found.ok_or(Error::NoAddress)
}

/// Whether a character has the Unicode property `White_Space`.
pub open spec fn white_space(c: char) -> bool {
    ||| '\u{9}' <= c <= '\u{d}'
    ||| c == ' '
    ||| c == '\u{85}'
    ||| c == '\u{a0}'
    ||| c == '\u{1680}'
    ||| '\u{2000}' <= c <= '\u{200a}'
    ||| c == '\u{2028}'
    ||| c == '\u{2029}'
    ||| c == '\u{202f}'
    ||| c == '\u{205f}'
    ||| c == '\u{3000}'
}

/// The six bytes that a text states as a MAC address, if it does.
pub uninterp spec fn mac_in_text(text: Seq<char>) -> Option<Seq<u8>>;

/// Whether a character is white space, in any script.
pub fn is_white_space(c: char) -> (res: bool)
    ensures
        res == white_space(c),
{
    ('\u{9}' <= c && c <= '\u{d}') || c == ' ' || c == '\u{85}' || c == '\u{a0}' || c
        == '\u{1680}' || ('\u{2000}' <= c && c <= '\u{200a}') || c == '\u{2028}' || c == '\u{2029}'
        || c == '\u{202f}' || c == '\u{205f}' || c == '\u{3000}'
}

/// The text from its first character on that is not white space.
pub open spec fn trimmed_start(text: Seq<char>) -> Seq<char>
    decreases text.len(),
{
    if text.len() > 0 && white_space(text[0]) {
        trimmed_start(text.skip(1))
    } else {
        text
    }
}

/// The text up to its last character that is not white space.
pub open spec fn trimmed_end(text: Seq<char>) -> Seq<char>
    decreases text.len(),
{
    if text.len() > 0 && white_space(text.last()) {
        trimmed_end(text.drop_last())
    } else {
        text
    }
}

/// The text without white space at its ends.
pub open spec fn trimmed(text: Seq<char>) -> Seq<char> {
    trimmed_end(trimmed_start(text))
}

fn trim_text<'a>(text: &'a str) -> (res: &'a str)
    ensures
        res@ == trimmed(text@),
{
    let len: usize = text.unicode_len();
    let mut start: usize = 0;
    assert(text@.skip(0) =~= text@);
    while start < len && is_white_space(text.get_char(start))
        invariant
            start <= len,
            len == text@.len(),
            trimmed_start(text@) == trimmed_start(text@.skip(start as int)),
        ensures
            start <= len,
            trimmed_start(text@) == text@.skip(start as int),
        decreases len - start,
    {
        assert(text@.skip(start as int).skip(1) =~= text@.skip(start + 1));
        start += 1;
    }
    let ghost rest = text@.skip(start as int);
    let mut end: usize = len;
    assert(rest =~= text@.subrange(start as int, end as int));
    while start < end && is_white_space(text.get_char(end - 1))
        invariant
            start <= end <= len,
            len == text@.len(),
            trimmed_end(rest) == trimmed_end(text@.subrange(start as int, end as int)),
        ensures
            start <= end <= len,
            trimmed_end(rest) == text@.subrange(start as int, end as int),
        decreases end,
    {
        assert(text@.subrange(start as int, end as int).drop_last() =~= text@.subrange(
            start as int,
            end - 1,
        ));
        end -= 1;
    }
    text.substring_char(start, end)
}

/// `FromStr` of `macaddr::MacAddr6`: six bytes as hexadecimal digits, with or
/// without a delimiter.
#[verifier::external_body]
fn parse_mac(text: &str) -> (res: Option<[u8; 6]>)
    ensures
        match res {
            Some(mac) => mac_in_text(text@) == Some(mac@),
            None => mac_in_text(text@) == None::<Seq<u8>>,
        },
{
    text.parse::<macaddr::MacAddr6>().ok().map(|mac| mac.into_array())
}

/// The MAC address that is printed out, with or without white space around it.
pub fn parse_rm_mac(output: &[u8]) -> (res: Result<[u8; 6], Error>)
    ensures
        if !valid_utf8(output@) {
            res == Err::<[u8; 6], Error>(Error::InvalidUtf8)
        } else {
            match (mac_in_text(trimmed(decode_utf8(output@))), res) {
                (Some(mac), Ok(res)) => res@ == mac,
                (None, Err(e)) => e == Error::InvalidMacAddress,
                _ => false,
            }
        },
{
    match utf8_text(output) {
        None => Err(Error::InvalidUtf8),
        Some(text) => match parse_mac(trim_text(text.as_str())) {
            Some(mac) => Ok(mac),
            None => Err(Error::InvalidMacAddress),
        },
    }
}

/// The MAC address of the radio module: the one that was given, or the stored
/// one, or else a fixed one.
pub fn choose_rm_mac(given: Option<[u8; 6]>, stored: Result<[u8; 6], Error>) -> (res: [u8; 6])
    ensures
        match (given, stored) {
            (Some(mac), _) => res == mac,
            (None, Ok(mac)) => res == mac,
            (None, Err(_)) => res@ == seq![0x8cu8, 0x05u8, 0x51u8, 0x00u8, 0x06u8, 0xe2u8],
        },
{
    match given {
        Some(mac) => mac,
        None => match stored {
            Ok(mac) => mac,
            Err(_) => {
                let mac: [u8; 6] = [0x8c, 0x05, 0x51, 0x00, 0x06, 0xe2];
                assert(mac@ =~= seq![0x8cu8, 0x05u8, 0x51u8, 0x00u8, 0x06u8, 0xe2u8]);
                mac
            },
        },
    }
}

/// The text of the firmware version in a response. It is always valid UTF-8.
pub fn app_version(data: &[u8]) -> (res: String)
    requires
        valid_utf8(data@),
    ensures
        res@ == decode_utf8(data@),
{
    match utf8_text(data) {
        Some(text) => text,
        None => String::new(),
    }
}

/// A request that was made is read back as the command and the data that it was
/// made of.
pub proof fn law_frame_round_trip(code: u8, data: Seq<u8>)
    requires
        data.len() <= 255,
    ensures
        frame(code, data)[0] == API_VERSION,
        frame(code, data)[1] == code,
        frame(code, data)[2] == data.len(),
        frame(code, data).skip(3) == data,
{
    assert(frame(code, data).skip(3) =~= data);
}

/// Each command has a code of its own, and so has each result. The codes of the
/// commands start at 1, in the order of their declaration, with two further ones
/// for the transmitter; those of the results run from 0 to 0x12.
pub proof fn law_codes(command: ApiCommand, other: ApiCommand, result: ApiResultCode)
    ensures
        command.spec_code() == other.spec_code() <==> command == other,
        1 <= command.spec_code() <= 0x0e || 0xe0 <= command.spec_code() <= 0xe1,
        command.spec_code() == 0x01 <==> command == ApiCommand::SetNetworkKey,
        command.spec_code() == 0x02 <==> command == ApiCommand::SetMacAddress,
        command.spec_code() == 0x03 <==> command == ApiCommand::WakeupDevice,
        command.spec_code() == 0x04 <==> command == ApiCommand::ResetDeviceNonce,
        command.spec_code() == 0x05 <==> command == ApiCommand::SetTxMacCounter,
        command.spec_code() == 0x06 <==> command == ApiCommand::GetMacAddress,
        command.spec_code() == 0x07 <==> command == ApiCommand::GetAntennaDiversityMode,
        command.spec_code() == 0x08 <==> command == ApiCommand::SetAntennaDiversityMode,
        command.spec_code() == 0x09 <==> command == ApiCommand::GetAntennaDiversity,
        command.spec_code() == 0x0a <==> command == ApiCommand::SetAntennaDiversity,
        command.spec_code() == 0x0b <==> command == ApiCommand::GetAntennaIntExt,
        command.spec_code() == 0x0c <==> command == ApiCommand::SetAntennaIntExt,
        command.spec_code() == 0x0d <==> command == ApiCommand::GetAppVersion,
        command.spec_code() == 0x0e <==> command == ApiCommand::GetTxMacCounter,
        command.spec_code() == 0xe0 <==> command == ApiCommand::Si4467StartCW,
        command.spec_code() == 0xe1 <==> command == ApiCommand::Si4467StopTx,
        result.spec_code() <= 0x12,
        result.spec_code() == 0x00 <==> result == ApiResultCode::Okay,
        result.spec_code() == 0x01 <==> result == ApiResultCode::IfaceNotFound,
        result.spec_code() == 0x02 <==> result == ApiResultCode::CantSetKey,
        result.spec_code() == 0x03 <==> result == ApiResultCode::CantSetMacAddress,
        result.spec_code() == 0x04 <==> result == ApiResultCode::UnsupportedCommand,
        result.spec_code() == 0x05 <==> result == ApiResultCode::LockTimeout,
        result.spec_code() == 0x06 <==> result == ApiResultCode::WakeupFailed,
        result.spec_code() == 0x07 <==> result == ApiResultCode::CantSave,
        result.spec_code() == 0x08 <==> result == ApiResultCode::CantSetTxMacCounter,
        result.spec_code() == 0x09 <==> result == ApiResultCode::CantResetTxMacCounter,
        result.spec_code() == 0x0a <==> result == ApiResultCode::TxMacCounterWouldDecrease,
        result.spec_code() == 0x0b <==> result == ApiResultCode::CantGetKey,
        result.spec_code() == 0x0c <==> result == ApiResultCode::CantResetTxMacCtr,
        result.spec_code() == 0x0d <==> result == ApiResultCode::CantGetMacAddress,
        result.spec_code() == 0x0e <==> result == ApiResultCode::Si4467CommandFailed,
        result.spec_code() == 0x0f <==> result == ApiResultCode::Si4467ContextNotFound,
        result.spec_code() == 0x10 <==> result == ApiResultCode::InvalidArgument,
        result.spec_code() == 0x11 <==> result == ApiResultCode::NoHwSupport,
        result.spec_code() == 0x12 <==> result == ApiResultCode::CantGetTxMacCounter,
{
}

/// The lowest byte of a number comes first.
pub proof fn law_lowest_byte_first(number: nat, count: nat, byte: u8, bytes: Seq<u8>)
    ensures
        count > 0 && byte == number % 256 ==> le_bytes_of(number, count)[0] == byte,
        le_bytes_of(number, (count + 1) as nat).skip(1) == le_bytes_of(number / 256, count),
        le_bytes_of(number, 0).len() == 0,
        le_value(seq![byte] + bytes) == byte + 256 * le_value(bytes),
        le_value(Seq::<u8>::empty()) == 0,
{
    assert(le_bytes_of(number, (count + 1) as nat).skip(1) =~= le_bytes_of(number / 256, count));
    assert((seq![byte] + bytes).skip(1) =~= bytes);
}

/// What is stored of a counter is all but its ten lowest bits, and these are zero
/// once it is restored.
pub proof fn law_restored_counter(stored: u32, counter: nat)
    ensures
        restored_counter(stored) <= counter < restored_counter(stored) + 1024 <==> counter / 1024
            == stored,
{
}

/// What a stored text gives: its bytes if it is hexadecimal, and nothing
/// otherwise.
pub proof fn law_stored_bytes(bytes: Seq<u8>, text: Seq<char>, upper: bool)
    ensures
        stored_bytes(hexcode::hex_text(bytes, upper)) == bytes,
        !hexcode::is_hex_text(text) ==> stored_bytes(text).len() == 0,
{
    hexcode::law_hex_round_trip(bytes, upper);
}

/// The radio module is set up by five requests: its version is read, its address
/// and then the network key are set, antenna diversity is switched on, and the
/// counter is read.
pub proof fn law_setup(mac: Seq<u8>, network_key: Seq<u8>)
    requires
        mac.len() <= 255,
        network_key.len() <= 255,
    ensures
        setup_frames(mac, network_key).len() == 5,
        setup_frames(mac, network_key)[0] == seq![1u8, 0x0d, 0],
        setup_frames(mac, network_key)[1] == seq![1u8, 0x02, mac.len() as u8] + mac,
        setup_frames(mac, network_key)[2] == seq![1u8, 0x01, network_key.len() as u8] + network_key,
        setup_frames(mac, network_key)[3] == seq![1u8, 0x08, 1, 1],
        setup_frames(mac, network_key)[4] == seq![1u8, 0x0e, 0],
{
    let frames = setup_frames(mac, network_key);
    assert(frames[0] =~= seq![1u8, 0x0d, 0]);
    assert(frames[3] =~= seq![1u8, 0x08, 1, 1]);
    assert(frames[4] =~= seq![1u8, 0x0e, 0]);
}

/// An entry counts if it has the name, an IPv6 address, be it readable or not,
/// and some other end. Its two ends are known if both are IPv6 addresses.
pub proof fn law_interface_entries(entry: InterfaceEntry, name: Seq<char>)
    ensures
        is_candidate(entry, name) ==> entry.name@ == name,
        entry.destination == InterfaceAddr::Missing ==> !is_candidate(entry, name),
        entry.name@ == name && entry.destination != InterfaceAddr::Missing ==> match entry.address {
            InterfaceAddr::Missing | InterfaceAddr::Other => !is_candidate(entry, name),
            InterfaceAddr::Unreadable | InterfaceAddr::Inet6(_) => is_candidate(entry, name),
        },
        candidate_ends(entry) is Some <==> entry.address is Inet6 && entry.destination is Inet6,
        candidate_ends(entry) matches Some(ends) ==> InterfaceAddr::Inet6(ends.address)
            == entry.address && InterfaceAddr::Inet6(ends.destination) == entry.destination,
{
}

proof fn lemma_scan_without_candidates(
    entries: Seq<InterfaceEntry>,
    name: Seq<char>,
    from: int,
    count: int,
)
    requires
        0 <= from <= count,
        forall|k: int| from <= k < count ==> !is_candidate(#[trigger] entries[k], name),
    ensures
        scan_interfaces(entries, name, count) == scan_interfaces(entries, name, from),
    decreases count,
{
    if from < count {
        lemma_scan_without_candidates(entries, name, from, count - 1);
        assert(!is_candidate(entries[count - 1], name));
    }
}

/// Where no entry counts, there is no interface.
pub proof fn law_no_interface(entries: Seq<InterfaceEntry>, name: Seq<char>)
    requires
        forall|k: int| 0 <= k < entries.len() ==> !is_candidate(#[trigger] entries[k], name),
    ensures
        scan_interfaces(entries, name, entries.len() as int) == Ok::<Option<Ifaddr>, Error>(None),
{
    lemma_scan_without_candidates(entries, name, 0, entries.len() as int);
}

/// Where just one entry counts, wherever it stands, its two ends are found. An
/// end that cannot be used is an error.
pub proof fn law_single_interface(entries: Seq<InterfaceEntry>, name: Seq<char>, i: int)
    requires
        0 <= i < entries.len(),
        is_candidate(entries[i], name),
        forall|k: int|
            0 <= k < entries.len() && k != i ==> !is_candidate(#[trigger] entries[k], name),
    ensures
        scan_interfaces(entries, name, entries.len() as int) == match candidate_ends(entries[i]) {
            Some(ends) => Ok::<Option<Ifaddr>, Error>(Some(ends)),
            None => Err::<Option<Ifaddr>, Error>(Error::UnsupportedAddress),
        },
{
    lemma_scan_without_candidates(entries, name, 0, i);
    lemma_scan_without_candidates(entries, name, i + 1, entries.len() as int);
}

/// A second entry that counts is an error, whatever comes behind it: either it
/// cannot be used, or there are too many.
pub proof fn law_second_interface(entries: Seq<InterfaceEntry>, name: Seq<char>, i: int, j: int)
    requires
        0 <= i < j < entries.len(),
        is_candidate(entries[i], name),
        candidate_ends(entries[i]) is Some,
        is_candidate(entries[j], name),
        forall|k: int| 0 <= k < j && k != i ==> !is_candidate(#[trigger] entries[k], name),
    ensures
        scan_interfaces(entries, name, entries.len() as int) == Err::<Option<Ifaddr>, Error>(
            if candidate_ends(entries[j]) is Some {
                Error::MultipleAddresses
            } else {
                Error::UnsupportedAddress
            },
        ),
{
    lemma_scan_without_candidates(entries, name, 0, i);
    lemma_scan_without_candidates(entries, name, i + 1, j);
    lemma_scan_error(entries, name, j + 1);
}

proof fn lemma_trimmed_start(text: Seq<char>) -> (from: int)
    ensures
        0 <= from <= text.len(),
        trimmed_start(text) == text.skip(from),
        forall|k: int| 0 <= k < from ==> white_space(#[trigger] text[k]),
        from < text.len() ==> !white_space(text[from]),
    decreases text.len(),
{
    if text.len() > 0 && white_space(text[0]) {
        let rest = text.skip(1);
        let n = lemma_trimmed_start(rest);
        assert(rest.skip(n) =~= text.skip(n + 1));
        assert forall|k: int| 0 <= k < n + 1 implies white_space(#[trigger] text[k]) by {
            if k > 0 {
                assert(text[k] == rest[k - 1]);
            }
        }
        if n < rest.len() {
            assert(rest[n] == text[n + 1]);
        }
        n + 1
    } else {
        assert(text.skip(0) =~= text);
        0
    }
}

proof fn lemma_trimmed_end(text: Seq<char>) -> (to: int)
    ensures
        0 <= to <= text.len(),
        trimmed_end(text) == text.take(to),
        forall|k: int| to <= k < text.len() ==> white_space(#[trigger] text[k]),
        to > 0 ==> !white_space(text[to - 1]),
    decreases text.len(),
{
    if text.len() > 0 && white_space(text.last()) {
        let rest = text.drop_last();
        let n = lemma_trimmed_end(rest);
        assert(rest.take(n) =~= text.take(n));
        assert forall|k: int| n <= k < text.len() implies white_space(#[trigger] text[k]) by {
            if k < rest.len() {
                assert(text[k] == rest[k]);
            }
        }
        if n > 0 {
            assert(rest[n - 1] == text[n - 1]);
        }
        n
    } else {
        assert(text.take(text.len() as int) =~= text);
        text.len() as int
    }
}

/// What is left of a text is a piece of it that neither begins nor ends with
/// white space, and there is nothing but white space around it.
pub proof fn law_trimmed_text(text: Seq<char>) -> (piece: (int, int))
    ensures
        0 <= piece.0 <= piece.1 <= text.len(),
        trimmed(text) == text.subrange(piece.0, piece.1),
        forall|k: int|
            0 <= k < piece.0 || piece.1 <= k < text.len() ==> white_space(#[trigger] text[k]),
        piece.0 < piece.1 ==> !white_space(text[piece.0]) && !white_space(text[piece.1 - 1]),
{
    let from = lemma_trimmed_start(text);
    let rest = text.skip(from);
    let len = lemma_trimmed_end(rest);
    assert(rest.take(len) =~= text.subrange(from, from + len));
    assert forall|k: int| 0 <= k < from || from + len <= k < text.len() implies white_space(
        #[trigger] text[k],
    ) by {
        if k >= from + len {
            assert(text[k] == rest[k - from]);
        }
    }
    if len > 0 {
        assert(rest[len - 1] == text[from + len - 1]);
        assert(from < text.len());
    }
    (from, from + len)
}

} // verus!

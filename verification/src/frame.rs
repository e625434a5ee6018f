//! The decoded telemetry snapshot and its enumerated field types.
//!
//! One `MpptFrame` is produced per successfully checksummed VE.Direct block.
//! Every field is independently optional: it stays `None` until the block
//! contains a line that sets it.  Quantities are kept in their wire units
//! (millivolts, milliamperes, watts, watt-hours) as plain integers.

use vstd::prelude::*;

verus! {

/// Operating state of the charge controller (the `CS` field).
#[derive(Clone, Copy, Debug, PartialEq, Eq, Structural)]
pub enum StateOfOperation {
    Off,
    LowPower,
    Fault,
    Bulk,
    Absorption,
    Float,
    Storage,
    Equalize,
    Inverting,
    PowerSupply,
    StartingUp,
    RepeatedAbsorption,
    AutoEqualize,
    BatterySafe,
    ExternalControl,
}

/// Which `StateOfOperation`, if any, a wire ordinal denotes.
pub open spec fn spec_state_of_operation(val: u32) -> Option<StateOfOperation> {
    if val == 0 {
        Some(StateOfOperation::Off)
    } else if val == 1 {
        Some(StateOfOperation::LowPower)
    } else if val == 2 {
        Some(StateOfOperation::Fault)
    } else if val == 3 {
        Some(StateOfOperation::Bulk)
    } else if val == 4 {
        Some(StateOfOperation::Absorption)
    } else if val == 5 {
        Some(StateOfOperation::Float)
    } else if val == 6 {
        Some(StateOfOperation::Storage)
    } else if val == 7 {
        Some(StateOfOperation::Equalize)
    } else if val == 9 {
        Some(StateOfOperation::Inverting)
    } else if val == 11 {
        Some(StateOfOperation::PowerSupply)
    } else if val == 245 {
        Some(StateOfOperation::StartingUp)
    } else if val == 246 {
        Some(StateOfOperation::RepeatedAbsorption)
    } else if val == 247 {
        Some(StateOfOperation::AutoEqualize)
    } else if val == 248 {
        Some(StateOfOperation::BatterySafe)
    } else if val == 252 {
        Some(StateOfOperation::ExternalControl)
    } else {
        None
    }
}

impl StateOfOperation {
    /// Looks an operating state up by its wire ordinal; unmapped ordinals
    /// yield `None`.
    pub fn from_u32(val: u32) -> (r: Option<StateOfOperation>)
        ensures
            r == spec_state_of_operation(val),
    {
        match val {
            0 => Some(StateOfOperation::Off),
            1 => Some(StateOfOperation::LowPower),
            2 => Some(StateOfOperation::Fault),
            3 => Some(StateOfOperation::Bulk),
            4 => Some(StateOfOperation::Absorption),
            5 => Some(StateOfOperation::Float),
            6 => Some(StateOfOperation::Storage),
            7 => Some(StateOfOperation::Equalize),
            9 => Some(StateOfOperation::Inverting),
            11 => Some(StateOfOperation::PowerSupply),
            245 => Some(StateOfOperation::StartingUp),
            246 => Some(StateOfOperation::RepeatedAbsorption),
            247 => Some(StateOfOperation::AutoEqualize),
            248 => Some(StateOfOperation::BatterySafe),
            252 => Some(StateOfOperation::ExternalControl),
            _ => None,
        }
    }
}

/// Device error report (the `ERR` field).
#[derive(Clone, Copy, Debug, PartialEq, Eq, Structural)]
pub enum ErrorCode {
    NoError,
    BatteryVoltageHigh,
    ChargerTemperatureHigh,
    ChargerCurrentHigh,
    ChargerCurrentReversed,
    BulkTimeLimit,
    CurrentSensor,
    TerminalTemperatureHigh,
    Converter,
    InputVoltageHigh,
    InputCurrentHigh,
    InputShutdownDueToBatteryVoltage,
    InputShutdownDueToCurrentFlowWhileOff,
    LostCommunication,
    SynchronizedChargingConfiguration,
    BmsConnectionLost,
    NetworkMisconfigured,
    FactoryCalibrationDataLost,
    InvalidFirmware,
    InvalidUserSettings,
}

/// Which `ErrorCode`, if any, a wire ordinal denotes.
pub open spec fn spec_error_code(val: u32) -> Option<ErrorCode> {
    if val == 0 {
        Some(ErrorCode::NoError)
    } else if val == 2 {
        Some(ErrorCode::BatteryVoltageHigh)
    } else if val == 17 {
        Some(ErrorCode::ChargerTemperatureHigh)
    } else if val == 18 {
        Some(ErrorCode::ChargerCurrentHigh)
    } else if val == 19 {
        Some(ErrorCode::ChargerCurrentReversed)
    } else if val == 20 {
        Some(ErrorCode::BulkTimeLimit)
    } else if val == 21 {
        Some(ErrorCode::CurrentSensor)
    } else if val == 26 {
        Some(ErrorCode::TerminalTemperatureHigh)
    } else if val == 28 {
        Some(ErrorCode::Converter)
    } else if val == 33 {
        Some(ErrorCode::InputVoltageHigh)
    } else if val == 34 {
        Some(ErrorCode::InputCurrentHigh)
    } else if val == 38 {
        Some(ErrorCode::InputShutdownDueToBatteryVoltage)
    } else if val == 39 {
        Some(ErrorCode::InputShutdownDueToCurrentFlowWhileOff)
    } else if val == 65 {
        Some(ErrorCode::LostCommunication)
    } else if val == 66 {
        Some(ErrorCode::SynchronizedChargingConfiguration)
    } else if val == 67 {
        Some(ErrorCode::BmsConnectionLost)
    } else if val == 68 {
        Some(ErrorCode::NetworkMisconfigured)
    } else if val == 116 {
        Some(ErrorCode::FactoryCalibrationDataLost)
    } else if val == 117 {
        Some(ErrorCode::InvalidFirmware)
    } else if val == 119 {
        Some(ErrorCode::InvalidUserSettings)
    } else {
        None
    }
}

impl ErrorCode {
    /// Looks an error code up by its wire ordinal; unmapped ordinals yield
    /// `None`.
    pub fn from_u32(val: u32) -> (r: Option<ErrorCode>)
        ensures
            r == spec_error_code(val),
    {
        match val {
            0 => Some(ErrorCode::NoError),
            2 => Some(ErrorCode::BatteryVoltageHigh),
            17 => Some(ErrorCode::ChargerTemperatureHigh),
            18 => Some(ErrorCode::ChargerCurrentHigh),
            19 => Some(ErrorCode::ChargerCurrentReversed),
            20 => Some(ErrorCode::BulkTimeLimit),
            21 => Some(ErrorCode::CurrentSensor),
            26 => Some(ErrorCode::TerminalTemperatureHigh),
            28 => Some(ErrorCode::Converter),
            33 => Some(ErrorCode::InputVoltageHigh),
            34 => Some(ErrorCode::InputCurrentHigh),
            38 => Some(ErrorCode::InputShutdownDueToBatteryVoltage),
            39 => Some(ErrorCode::InputShutdownDueToCurrentFlowWhileOff),
            65 => Some(ErrorCode::LostCommunication),
            66 => Some(ErrorCode::SynchronizedChargingConfiguration),
            67 => Some(ErrorCode::BmsConnectionLost),
            68 => Some(ErrorCode::NetworkMisconfigured),
            116 => Some(ErrorCode::FactoryCalibrationDataLost),
            117 => Some(ErrorCode::InvalidFirmware),
            119 => Some(ErrorCode::InvalidUserSettings),
            _ => None,
        }
    }
}

/// Tracker operation mode (the `MPPT` field).
#[derive(Clone, Copy, Debug, PartialEq, Eq, Structural)]
pub enum Mppt {
    Off,
    VoltageOrCurrentLimited,
    MpptTrackerActive,
}

/// Which `Mppt` mode, if any, a wire ordinal denotes.
pub open spec fn spec_mppt(val: u32) -> Option<Mppt> {
    if val == 0 {
        Some(Mppt::Off)
    } else if val == 1 {
        Some(Mppt::VoltageOrCurrentLimited)
    } else if val == 2 {
        Some(Mppt::MpptTrackerActive)
    } else {
        None
    }
}

impl Mppt {
    /// Looks a tracker mode up by its wire ordinal; unmapped ordinals yield
    /// `None`.
    pub fn from_u32(val: u32) -> (r: Option<Mppt>)
        ensures
            r == spec_mppt(val),
    {
        match val {
            0 => Some(Mppt::Off),
            1 => Some(Mppt::VoltageOrCurrentLimited),
            2 => Some(Mppt::MpptTrackerActive),
            _ => None,
        }
    }
}

/// Union of every flag the `OR` (off reason) field can carry.
pub const OFF_REASON_MASK: u32 = 0x1ff;

/// Bit-flag set giving the reasons the charger output is off (the `OR`
/// field).  `bits` only ever holds flags inside `OFF_REASON_MASK`.
#[derive(Clone, Copy, Debug, PartialEq, Eq, Structural)]
pub struct OffReason {
    /// The raw flag word; always inside `OFF_REASON_MASK`.
    pub bits: u32,
}

/// The `OffReason` denoted by a wire value, if every set bit is a known flag.
pub open spec fn spec_off_reason(val: u32) -> Option<OffReason> {
    if val & OFF_REASON_MASK == val {
        Some(OffReason { bits: val })
    } else {
        None
    }
}

impl OffReason {
    /// Accepts a flag word iff every set bit is a known flag, as the wire
    /// encoding requires.
    pub fn from_bits(val: u32) -> (r: Option<OffReason>)
        ensures
            r == spec_off_reason(val),
    {
        if val & OFF_REASON_MASK == val {
            Some(OffReason { bits: val })
        } else {
            None
        }
    }

    /// The raw flag word.
    pub fn bits(&self) -> (r: u32)
        ensures
            r == self.bits,
    {
        self.bits
    }

    /// Flag words never carry bits outside the known mask.
    pub open spec fn wf(self) -> bool {
        self.bits & OFF_REASON_MASK == self.bits
    }
}

/// Mathematical image of an `MpptFrame`: byte-vector fields become sequences.
pub ghost struct FrameView {
    pub timestamp: Option<u64>,
    pub battery_voltage: Option<u32>,
    pub panel_voltage: Option<u32>,
    pub panel_power: Option<u16>,
    pub battery_current: Option<i32>,
    pub load_current: Option<i32>,
    pub load_state: Option<bool>,
    pub relay_state: Option<bool>,
    pub off_reason: Option<OffReason>,
    pub yield_total: Option<u32>,
    pub yield_today: Option<u16>,
    pub maximum_power_today: Option<u16>,
    pub yield_yesterday: Option<u16>,
    pub maximum_power_yesterday: Option<u16>,
    pub error: Option<ErrorCode>,
    pub state: Option<StateOfOperation>,
    pub firmware_version: Option<Seq<u8>>,
    pub product_id: Option<u32>,
    pub serial_number: Option<Seq<u8>>,
    pub day_number: Option<u16>,
    pub mppt_status: Option<Mppt>,
}

impl FrameView {
    /// The frame a block starts from: every field unset.
    pub open spec fn empty() -> FrameView {
        FrameView {
            timestamp: None,
            battery_voltage: None,
            panel_voltage: None,
            panel_power: None,
            battery_current: None,
            load_current: None,
            load_state: None,
            relay_state: None,
            off_reason: None,
            yield_total: None,
            yield_today: None,
            maximum_power_today: None,
            yield_yesterday: None,
            maximum_power_yesterday: None,
            error: None,
            state: None,
            firmware_version: None,
            product_id: None,
            serial_number: None,
            day_number: None,
            mppt_status: None,
        }
    }

    /// Field-level sanity every constructed frame maintains: the day-of-year
    /// sequence stays in range and off-reason flags stay inside the mask.
    pub open spec fn wf(self) -> bool {
        &&& (self.day_number matches Some(d) ==> d <= 364)
        &&& (self.off_reason matches Some(o) ==> o.wf())
    }
}

/// One telemetry snapshot, decoded from a single checksummed VE.Direct block.
///
/// Wire units are kept as read: voltages in mV, currents in mA, powers in W,
/// energy counters in Wh, the product id as the number its hex digits spell,
/// and the firmware/serial fields as their raw (UTF-8 validated) bytes.
#[derive(Debug, PartialEq, Eq)]
pub struct MpptFrame {
    /// Capture timestamp, in milliseconds, supplied by the caller at emission.
    pub timestamp: Option<u64>,
    /// `V`: battery voltage (mV).
    pub battery_voltage: Option<u32>,
    /// `VPV`: panel voltage (mV).
    pub panel_voltage: Option<u32>,
    /// `PPV`: panel power (W).
    pub panel_power: Option<u16>,
    /// `I`: battery current (mA), positive while charging.
    pub battery_current: Option<i32>,
    /// `IL`: load current (mA).
    pub load_current: Option<i32>,
    /// `LOAD`: load output state.
    pub load_state: Option<bool>,
    /// `RELAY`: relay state.
    pub relay_state: Option<bool>,
    /// `OR`: reasons the output is off.
    pub off_reason: Option<OffReason>,
    /// `H19`: yield total (Wh).
    pub yield_total: Option<u32>,
    /// `H20`: yield today (Wh).
    pub yield_today: Option<u16>,
    /// `H21`: maximum power today (W).
    pub maximum_power_today: Option<u16>,
    /// `H22`: yield yesterday (Wh).
    pub yield_yesterday: Option<u16>,
    /// `H23`: maximum power yesterday (W).
    pub maximum_power_yesterday: Option<u16>,
    /// `ERR`: error code.
    pub error: Option<ErrorCode>,
    /// `CS`: operating state.
    pub state: Option<StateOfOperation>,
    /// `FW`: firmware version text.
    pub firmware_version: Option<Vec<u8>>,
    /// `PID`: product id.
    pub product_id: Option<u32>,
    /// `SER#`: serial number text.
    pub serial_number: Option<Vec<u8>>,
    /// `HSDS`: historical day sequence number, 0..=364.
    pub day_number: Option<u16>,
    /// `MPPT`: tracker operation mode.
    pub mppt_status: Option<Mppt>,
}

impl View for MpptFrame {
    type V = FrameView;

    open spec fn view(&self) -> FrameView {
        FrameView {
            timestamp: self.timestamp,
            battery_voltage: self.battery_voltage,
            panel_voltage: self.panel_voltage,
            panel_power: self.panel_power,
            battery_current: self.battery_current,
            load_current: self.load_current,
            load_state: self.load_state,
            relay_state: self.relay_state,
            off_reason: self.off_reason,
            yield_total: self.yield_total,
            yield_today: self.yield_today,
            maximum_power_today: self.maximum_power_today,
            yield_yesterday: self.yield_yesterday,
            maximum_power_yesterday: self.maximum_power_yesterday,
            error: self.error,
            state: self.state,
            firmware_version: match self.firmware_version {
                Some(ref v) => Some(v@),
                None => None,
            },
            product_id: self.product_id,
            serial_number: match self.serial_number {
                Some(ref v) => Some(v@),
                None => None,
            },
            day_number: self.day_number,
            mppt_status: self.mppt_status,
        }
    }
}

impl Default for MpptFrame {
    /// The empty frame a block's value-collection phase begins with.
    fn default() -> (f: MpptFrame)
        ensures
            f@ == FrameView::empty(),
    {
        MpptFrame {
            timestamp: None,
            battery_voltage: None,
            panel_voltage: None,
            panel_power: None,
            battery_current: None,
            load_current: None,
            load_state: None,
            relay_state: None,
            off_reason: None,
            yield_total: None,
            yield_today: None,
            maximum_power_today: None,
            yield_yesterday: None,
            maximum_power_yesterday: None,
            error: None,
            state: None,
            firmware_version: None,
            product_id: None,
            serial_number: None,
            day_number: None,
            mppt_status: None,
        }
    }
}

/// Copies a byte vector element by element.
fn clone_bytes(v: &Vec<u8>) -> (r: Vec<u8>)
    ensures
        r@ == v@,
{
    let mut r: Vec<u8> = Vec::new();
    let mut i: usize = 0;
    while i < v.len()
        invariant
            i <= v.len(),
            r@ == v@.subrange(0, i as int),
        decreases v.len() - i,
    {
        r.push(v[i]);
        i = i + 1;
        assert(r@ == v@.subrange(0, i as int));
    }
    assert(v@.subrange(0, v.len() as int) == v@);
    r
}

impl MpptFrame {
    /// An exact copy: the duplicate's view equals this frame's view.
    pub fn duplicate(&self) -> (r: MpptFrame)
        ensures
            r@ == self@,
    {
        MpptFrame {
            timestamp: self.timestamp,
            battery_voltage: self.battery_voltage,
            panel_voltage: self.panel_voltage,
            panel_power: self.panel_power,
            battery_current: self.battery_current,
            load_current: self.load_current,
            load_state: self.load_state,
            relay_state: self.relay_state,
            off_reason: self.off_reason,
            yield_total: self.yield_total,
            yield_today: self.yield_today,
            maximum_power_today: self.maximum_power_today,
            yield_yesterday: self.yield_yesterday,
            maximum_power_yesterday: self.maximum_power_yesterday,
            error: self.error,
            state: self.state,
            firmware_version: match &self.firmware_version {
                Some(v) => Some(clone_bytes(v)),
                None => None,
            },
            product_id: self.product_id,
            serial_number: match &self.serial_number {
                Some(v) => Some(clone_bytes(v)),
                None => None,
            },
            day_number: self.day_number,
            mppt_status: self.mppt_status,
        }
    }
}

} // verus!

//! Devices: a power socket and a thermometer, whose reads and switches are
//! guarded by access control and by whether the device is online.

use vstd::prelude::*;
use vstd::string::*;

use crate::interface::{Nameable, SmartDevice};
use crate::text::{int_text, push_int};

verus! {

/// Why a guarded device operation failed.
#[derive(Debug, Clone, Copy, PartialEq, Eq, Structural)]
pub enum DeviceError {
    AccessDenied,
    DeviceOffline,
}

impl DeviceError {
    /// The human-readable text of the error.
    pub open spec fn message_spec(&self) -> Seq<char> {
        match self {
            DeviceError::AccessDenied => "access is denied"@,
            DeviceError::DeviceOffline => "device is offline"@,
        }
    }

    pub fn message(&self) -> (r: &'static str)
        ensures
            r@ == self.message_spec(),
    {
        match self {
            DeviceError::AccessDenied => "access is denied",
            DeviceError::DeviceOffline => "device is offline",
        }
    }
}

/// A power socket. `current_power` is in whole watts.
#[derive(Debug)]
pub struct Socket {
    pub name: String,
    pub description: String,
    pub is_on: bool,
    pub current_power: i64,
    pub is_online: bool,
    pub is_accessible: bool,
}

impl Socket {
    /// The guard of every socket operation: access control first, then being online.
    pub open spec fn check_spec(&self) -> Result<(), DeviceError> {
        if !self.is_accessible {
            Err(DeviceError::AccessDenied)
        } else if !self.is_online {
            Err(DeviceError::DeviceOffline)
        } else {
            Ok(())
        }
    }

    pub open spec fn power_spec(&self) -> Result<i64, DeviceError> {
        match self.check_spec() {
            Ok(_) => Ok(self.current_power),
            Err(e) => Err(e),
        }
    }

    /// An offline socket reads as off; an inaccessible one is still an error.
    pub open spec fn is_on_spec(&self) -> Result<bool, DeviceError> {
        match self.check_spec() {
            Ok(_) => Ok(self.is_on),
            Err(DeviceError::DeviceOffline) => Ok(false),
            Err(e) => Err(e),
        }
    }

    /// The same socket, switched on or off.
    pub open spec fn switched(self, on: bool) -> Socket {
        Socket { is_on: on, ..self }
    }

    pub open spec fn power_text(&self) -> Seq<char> {
        match self.power_spec() {
            Ok(p) => int_text(p as int),
            Err(e) => e.message_spec(),
        }
    }

    pub open spec fn state_text(&self) -> Seq<char> {
        match self.is_on_spec() {
            Ok(true) => "is on now"@,
            Ok(false) => "is off now"@,
            Err(e) => e.message_spec(),
        }
    }

    /// `description: {description}, current power: {power}, state: {state}`.
    pub open spec fn report_text(&self) -> Seq<char> {
        "description: "@ + self.description@ + ", current power: "@ + self.power_text()
            + ", state: "@ + self.state_text()
    }

    pub fn description(&self) -> (r: &str)
        ensures
            r@ == self.description@,
    {
        self.description.as_str()
    }

    pub fn get_power(&self) -> (r: Result<i64, DeviceError>)
        ensures
            r == self.power_spec(),
    {
        self.check_device()?;
        Ok(self.current_power)
    }

    pub fn turn_off(&mut self) -> (r: Result<(), DeviceError>)
        ensures
            r == old(self).check_spec(),
            *final(self) == (if r is Ok {
                old(self).switched(false)
            } else {
                *old(self)
            }),
    {
        self.check_device()?;
        self.is_on = false;
        Ok(())
    }

    pub fn turn_on(&mut self) -> (r: Result<(), DeviceError>)
        ensures
            r == old(self).check_spec(),
            *final(self) == (if r is Ok {
                old(self).switched(true)
            } else {
                *old(self)
            }),
    {
        self.check_device()?;
        self.is_on = true;
        Ok(())
    }

    pub fn is_on(&self) -> (r: Result<bool, DeviceError>)
        ensures
            r == self.is_on_spec(),
    {
        match self.check_device() {
            Err(e) => match e {
                DeviceError::DeviceOffline => Ok(false),
                _ => Err(e),
            },
            _ => Ok(self.is_on),
        }
    }

    fn check_device(&self) -> (r: Result<(), DeviceError>)
        ensures
            r == self.check_spec(),
    {
        if !self.is_accessible {
            return Err(DeviceError::AccessDenied);
        }
        if !self.is_online {
            return Err(DeviceError::DeviceOffline);
        }
        Ok(())
    }
}

/// Switching an online, accessible socket that is off on and then off again
/// gives back the socket it started as.
pub proof fn lemma_turn_on_then_off(s: Socket)
    requires
        s.is_online,
        s.is_accessible,
        !s.is_on,
    ensures
        s.check_spec() is Ok,
        s.switched(true).check_spec() is Ok,
        s.switched(true).is_on_spec() == Ok::<bool, DeviceError>(true),
        s.switched(true).switched(false) == s,
{
}

impl Nameable for Socket {
    open spec fn name_spec(&self) -> Seq<char> {
        self.name@
    }

    fn name(&self) -> (r: String) {
        assert(self.name_spec() == self.name@);
        self.name.clone()
    }
}

impl SmartDevice for Socket {
    open spec fn report_spec(&self) -> Seq<char> {
        self.report_text()
    }

    fn state_report(&self) -> (r: String) {
        let mut out = String::from_str("description: ");
        out.append(self.description());
        out.append(", current power: ");
        match self.get_power() {
            Ok(power) => push_int(&mut out, power),
            Err(err) => out.append(err.message()),
        }
        out.append(", state: ");
        match self.is_on() {
            Ok(on) => {
                if on {
                    out.append("is on now");
                } else {
                    out.append("is off now");
                }
            },
            Err(err) => out.append(err.message()),
        }
        assert(out@ =~= self.report_text());
        out
    }
}

/// A thermometer. `value` is in whole degrees.
#[derive(Debug)]
pub struct Thermometr {
    pub name: String,
    pub description: String,
    pub value: i64,
    pub is_online: bool,
}

impl Thermometr {
    pub open spec fn value_spec(&self) -> Result<i64, DeviceError> {
        if !self.is_online {
            Err(DeviceError::DeviceOffline)
        } else {
            Ok(self.value)
        }
    }

    pub open spec fn value_text(&self) -> Seq<char> {
        match self.value_spec() {
            Ok(v) => int_text(v as int),
            Err(e) => e.message_spec(),
        }
    }

    /// `Thermometr: {description} current value: {value}`.
    pub open spec fn report_text(&self) -> Seq<char> {
        "Thermometr: "@ + self.description@ + " current value: "@ + self.value_text()
    }

    pub fn description(&self) -> (r: &str)
        ensures
            r@ == self.description@,
    {
        self.description.as_str()
    }

    pub fn value(&self) -> (r: Result<i64, DeviceError>)
        ensures
            r == self.value_spec(),
    {
        self.check_device()?;
        Ok(self.value)
    }

    fn check_device(&self) -> (r: Result<(), DeviceError>)
        ensures
            r is Ok <==> self.is_online,
            r is Err ==> r == Err::<(), DeviceError>(DeviceError::DeviceOffline),
    {
        if !self.is_online {
            return Err(DeviceError::DeviceOffline);
        }
        Ok(())
    }
}

impl Nameable for Thermometr {
    open spec fn name_spec(&self) -> Seq<char> {
        self.name@
    }

    fn name(&self) -> (r: String) {
        assert(self.name_spec() == self.name@);
        self.name.clone()
    }
}

impl SmartDevice for Thermometr {
    open spec fn report_spec(&self) -> Seq<char> {
        self.report_text()
    }

    fn state_report(&self) -> (r: String) {
        let mut out = String::from_str("Thermometr: ");
        out.append(self.description());
        out.append(" current value: ");
        match self.value() {
            Ok(val) => push_int(&mut out, val),
            Err(error) => out.append(error.message()),
        }
        assert(out@ =~= self.report_text());
        out
    }
}

/// A device of either kind, as the registry stores it.
#[derive(Debug)]
pub enum DeviceType {
    Socket(Socket),
    Thermometr(Thermometr),
}

impl Nameable for DeviceType {
    open spec fn name_spec(&self) -> Seq<char> {
        match self {
            DeviceType::Socket(d) => d.name@,
            DeviceType::Thermometr(d) => d.name@,
        }
    }

    fn name(&self) -> (r: String) {
        match self {
            DeviceType::Socket(d) => d.name(),
            DeviceType::Thermometr(d) => d.name(),
        }
    }
}

impl SmartDevice for DeviceType {
    open spec fn report_spec(&self) -> Seq<char> {
        match self {
            DeviceType::Socket(d) => d.report_text(),
            DeviceType::Thermometr(d) => d.report_text(),
        }
    }

    fn state_report(&self) -> (r: String) {
        match self {
            DeviceType::Socket(d) => d.state_report(),
            DeviceType::Thermometr(d) => d.state_report(),
        }
    }
}

} // verus!

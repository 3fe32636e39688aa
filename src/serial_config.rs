//! The serial link's settings, read from a parameter store that holds a
//! `device` and a `baudrate` parameter.
use vstd::prelude::*;
use vstd::utf8::encode_utf8;
use crate::config::{ConfigError, ConfigView, DeviceConfig};
use crate::text::{parse_u32, parsed_u32};

verus! {

pub open spec fn device_key() -> Seq<char> {
    seq!['d', 'e', 'v', 'i', 'c', 'e']
}

pub open spec fn baudrate_key() -> Seq<char> {
    seq!['b', 'a', 'u', 'd', 'r', 'a', 't', 'e']
}

/// Name and speed of the serial port.
pub struct SerialPortConfig {
    serial_name: String,
    serial_baudrate: u32,
}

/// What reading the settings from `store` gives: the current values of
/// `device` and `baudrate`, the latter as a decimal 32-bit number.
pub open spec fn serial_settings(store: ConfigView) -> Result<(Seq<char>, u32), ConfigError> {
    let d = store.slot(device_key());
    let b = store.slot(baudrate_key());
    if d < 0 || b < 0 {
        Err(ConfigError::ParameterNotFound)
    } else {
        match parsed_u32(encode_utf8(store.params[b].value)) {
            Some(rate) => Ok((store.params[d].value, rate)),
            None => Err(ConfigError::NotANumber),
        }
    }
}

impl SerialPortConfig {
    pub closed spec fn name(&self) -> Seq<char> {
        self.serial_name@
    }

    pub closed spec fn baudrate(&self) -> u32 {
        self.serial_baudrate
    }

    /// Reads the settings from the parameters of the port's schema.
    pub fn new(serial_parameters: &DeviceConfig) -> (r: Result<SerialPortConfig, ConfigError>)
        requires
            serial_parameters@.wf(),
        ensures
            match serial_settings(serial_parameters@) {
                Ok((name, rate)) => r is Ok && r->Ok_0.name() == name && r->Ok_0.baudrate() == rate,
                Err(e) => r == Err::<SerialPortConfig, ConfigError>(e),
            },
    {
        proof {
            reveal_strlit("device");
            reveal_strlit("baudrate");
        }
        let device = "device";
        let baudrate = "baudrate";
        assert(device@ =~= device_key());
        assert(baudrate@ =~= baudrate_key());
        let serial_name = serial_parameters.get_parameter_value(device)?;
        let rate_text = serial_parameters.get_parameter_value(baudrate)?;
        match parse_u32(rate_text.as_str().as_bytes()) {
            Some(serial_baudrate) => Ok(SerialPortConfig { serial_name, serial_baudrate }),
            None => Err(ConfigError::NotANumber),
        }
    }

    pub fn get_serial_name(&self) -> (r: String)
        ensures
            r@ == self.name(),
    {
        self.serial_name.clone()
    }

    pub fn get_serial_baudrate(&self) -> (r: u32)
        ensures
            r == self.baudrate(),
    {
        self.serial_baudrate
    }
}

} // verus!

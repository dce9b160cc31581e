//! The faults that end a session.
use vstd::prelude::*;

use crate::session::SessionFault;

verus! {

/// An error of the serial port driver; carried through unchanged.
#[verifier::external_type_specification]
#[verifier::external_body]
pub struct ExSerialError(serial::Error);

/// An error of the telegram decoder; carried through unchanged.
#[verifier::external_type_specification]
#[verifier::external_body]
pub struct ExDsmrError(dsmr5::Error);

/// An error of the MQTT client; carried through unchanged.
#[verifier::external_type_specification]
#[verifier::external_body]
pub struct ExClientError(rumqttc::ClientError);

/// What ended a session's ingestion lane.
pub enum MyError {
    /// The serial source could not be opened, configured or read.
    SerialError { source: serial::Error },
    /// A telegram could not be decoded.
    Dsmr5Error(dsmr5::Error),
    /// Publishing on the broker failed.
    MqttError { source: rumqttc::ClientError },
    /// The telegram stream ended, which it never should.
    EndOfReader(),
}

/// The fault class of an error.
pub open spec fn fault_of(e: MyError) -> SessionFault {
    match e {
        MyError::SerialError { .. } => SessionFault::Source,
        MyError::Dsmr5Error(_) => SessionFault::Decode,
        MyError::MqttError { .. } => SessionFault::Transport,
        MyError::EndOfReader() => SessionFault::StreamExhausted,
    }
}

impl MyError {
    /// The fault class of this error.
    pub fn fault(&self) -> (r: SessionFault)
        ensures
            r == fault_of(*self),
    {
        match self {
            MyError::SerialError { .. } => SessionFault::Source,
            MyError::Dsmr5Error(_) => SessionFault::Decode,
            MyError::MqttError { .. } => SessionFault::Transport,
            MyError::EndOfReader() => SessionFault::StreamExhausted,
        }
    }

    /// A one-line description of this error.
    pub fn message(&self) -> (r: &'static str)
        ensures
            r@ == match fault_of(*self) {
                SessionFault::Source => "serial connection failed"@,
                SessionFault::Decode => "parsing dsmr failed"@,
                SessionFault::Transport => "mqtt error occurred"@,
                SessionFault::StreamExhausted => "serial reader reached unexpected end"@,
            },
    {
        match self {
            MyError::SerialError { .. } => "serial connection failed",
            MyError::Dsmr5Error(_) => "parsing dsmr failed",
            MyError::MqttError { .. } => "mqtt error occurred",
            MyError::EndOfReader() => "serial reader reached unexpected end",
        }
    }
}

} // verus!

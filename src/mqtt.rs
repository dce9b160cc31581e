//! Messages for the broker.
use vstd::prelude::*;

verus! {

/// The quality-of-service levels of the MQTT client; carried through unchanged.
#[verifier::external_type_specification]
#[verifier::external_body]
pub struct ExQoS(rumqttc::QoS);

/// One message for the broker: a topic, its delivery level, whether the
/// broker keeps it for late subscribers, and the payload bytes.
pub struct Message {
    pub topic: String,
    pub qos: rumqttc::QoS,
    pub retain: bool,
    pub payload: Vec<u8>,
}

impl Message {
    pub fn new(topic: String, qos: rumqttc::QoS, retain: bool, payload: Vec<u8>) -> (r: Message)
        ensures
            r.topic@ == topic@,
            r.qos == qos,
            r.retain == retain,
            r.payload@ == payload@,
    {
        Message { topic, qos, retain, payload }
    }
}

} // verus!

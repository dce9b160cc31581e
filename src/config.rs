//! The bridge's configuration, read once at start.
use vstd::prelude::*;
use vstd::string::*;

verus! {

/// Where the broker is, and under which prefix the fields are published.
#[derive(Clone, Debug)]
pub struct Config {
    pub mqtt_host: String,
    pub mqtt_topic_prefix: String,
    pub mqtt_port: u16,
}

impl Default for Config {
    /// The broker on the local host at the standard port, prefix `dsmr`.
    fn default() -> (r: Self)
        ensures
            r.mqtt_host@ == "::1"@,
            r.mqtt_topic_prefix@ == "dsmr"@,
            r.mqtt_port == 1883,
    {
        Config {
            mqtt_host: String::from_str("::1"),
            mqtt_topic_prefix: String::from_str("dsmr"),
            mqtt_port: 1883,
        }
    }
}

impl Config {
    /// The topic of the structured export of a whole snapshot.
    pub fn measurements_topic(&self) -> (r: String)
        ensures
            r@ == self.mqtt_topic_prefix@ + "/measurements"@,
    {
        let mut topic = self.mqtt_topic_prefix.clone();
        topic.append("/measurements");
        topic
    }
}

} // verus!

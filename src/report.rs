//! Folding a telegram's field objects into a snapshot, and mapping the
//! snapshot onto messages and a record line.
use vstd::prelude::*;
use vstd::string::*;
use vstd::utf8::encode_utf8;

use crate::decimal::{decimal_text, digits, push_digits, Decimal, MAX_READING};
use crate::mqtt::Message;

verus! {

/// One of the meter's two billing rates.
#[derive(Clone, Copy, Debug, PartialEq, Eq, Structural)]
pub enum TariffDef {
    Tariff1,
    Tariff2,
}

/// One of the three power lines.
#[derive(Clone, Copy, Debug, PartialEq, Eq, Structural)]
pub enum Line {
    Line1,
    Line2,
    Line3,
}

/// One decoded tag/value unit of a telegram, as the telegram decoder hands it over.
#[derive(Clone, Debug)]
pub enum FieldObject {
    /// The raw octets of the tariff indicator.
    TariffIndicator(Vec<u8>),
    /// Electricity delivered to the client under a tariff.
    MeterReadingTo(TariffDef, Decimal),
    /// Electricity delivered by the client under a tariff.
    MeterReadingBy(TariffDef, Decimal),
    /// Actual power delivered to the client.
    PowerDelivered(Decimal),
    /// Actual power received from the client.
    PowerReceived(Decimal),
    /// Instantaneous positive active power of one line.
    InstantaneousActivePowerPlus(Line, Decimal),
    /// Instantaneous negative active power of one line.
    InstantaneousActivePowerNeg(Line, Decimal),
    /// The hourly gas meter reading (its capture time is not kept).
    GasMeterReading(Decimal),
    /// Any tag that the snapshot does not use.
    Other,
}

impl FieldObject {
    /// Every value that the object carries is a meter reading.
    pub open spec fn is_wf(self) -> bool {
        match self {
            FieldObject::MeterReadingTo(_, v) => v.is_reading(),
            FieldObject::MeterReadingBy(_, v) => v.is_reading(),
            FieldObject::PowerDelivered(v) => v.is_reading(),
            FieldObject::PowerReceived(v) => v.is_reading(),
            FieldObject::InstantaneousActivePowerPlus(_, v) => v.is_reading(),
            FieldObject::InstantaneousActivePowerNeg(_, v) => v.is_reading(),
            FieldObject::GasMeterReading(v) => v.is_reading(),
            _ => true,
        }
    }
}

/// One named field of a snapshot.
#[derive(Clone, Copy, Debug, PartialEq, Eq, Structural)]
pub enum Measurement {
    ActiveTariff(TariffDef),
    ElectricityUsedT1(Decimal),
    ElectricityUsedT2(Decimal),
    ElectricityDeliveredT1(Decimal),
    ElectricityDeliveredT2(Decimal),
    CurrentElectricityUsage(Decimal),
    CurrentElectricityDelivery(Decimal),
    CurrentElectricityDraw(Decimal),
    InstantaneousActivePowerPositive(Decimal),
    InstantaneousActivePowerNegative(Decimal),
    HourlyGasMeterReading(Decimal),
}

/// The number of fields that a snapshot can hold.
pub const FIELD_COUNT: usize = 11;

/// Position of the net draw in the canonical order.
pub const DRAW_SLOT: usize = 7;

/// Position of the total positive power in the canonical order.
pub const POSITIVE_SLOT: usize = 8;

/// Position of the total negative power in the canonical order.
pub const NEGATIVE_SLOT: usize = 9;

/// The position of a field in the canonical order of a snapshot.
pub open spec fn slot(m: Measurement) -> nat {
    match m {
        Measurement::ActiveTariff(_) => 0,
        Measurement::ElectricityUsedT1(_) => 1,
        Measurement::ElectricityUsedT2(_) => 2,
        Measurement::ElectricityDeliveredT1(_) => 3,
        Measurement::ElectricityDeliveredT2(_) => 4,
        Measurement::CurrentElectricityUsage(_) => 5,
        Measurement::CurrentElectricityDelivery(_) => 6,
        Measurement::CurrentElectricityDraw(_) => 7,
        Measurement::InstantaneousActivePowerPositive(_) => 8,
        Measurement::InstantaneousActivePowerNegative(_) => 9,
        Measurement::HourlyGasMeterReading(_) => 10,
    }
}

/// The slots of the three aggregates, which every snapshot holds.
pub open spec fn is_aggregate_slot(k: nat) -> bool {
    k == DRAW_SLOT || k == POSITIVE_SLOT || k == NEGATIVE_SLOT
}

/// The sum of the octets.
pub open spec fn octet_sum(o: Seq<u8>) -> int
    decreases o.len(),
{
    if o.len() == 0 {
        0
    } else {
        octet_sum(o.drop_last()) + o.last()
    }
}

/// The tariff that an indicator's octets name: a sum of one is the first
/// tariff, a sum of two the second, and any other sum none.
pub open spec fn tariff_of_octets(o: Seq<u8>) -> Option<TariffDef> {
    if octet_sum(o) == 1 {
        Some(TariffDef::Tariff1)
    } else if octet_sum(o) == 2 {
        Some(TariffDef::Tariff2)
    } else {
        None
    }
}

/// The direct (single-assignment) field that an object sets, if any.
pub open spec fn assigned(o: FieldObject) -> Option<Measurement> {
    match o {
        FieldObject::TariffIndicator(octets) => match tariff_of_octets(octets@) {
            Some(t) => Some(Measurement::ActiveTariff(t)),
            None => None,
        },
        FieldObject::MeterReadingTo(TariffDef::Tariff1, v) => Some(
            Measurement::ElectricityUsedT1(v),
        ),
        FieldObject::MeterReadingTo(TariffDef::Tariff2, v) => Some(
            Measurement::ElectricityUsedT2(v),
        ),
        FieldObject::MeterReadingBy(TariffDef::Tariff1, v) => Some(
            Measurement::ElectricityDeliveredT1(v),
        ),
        FieldObject::MeterReadingBy(TariffDef::Tariff2, v) => Some(
            Measurement::ElectricityDeliveredT2(v),
        ),
        FieldObject::PowerDelivered(v) => Some(Measurement::CurrentElectricityUsage(v)),
        FieldObject::PowerReceived(v) => Some(Measurement::CurrentElectricityDelivery(v)),
        FieldObject::GasMeterReading(v) => Some(Measurement::HourlyGasMeterReading(v)),
        _ => None,
    }
}

/// The value of the direct field in slot `k` after all objects: the last
/// object that sets it wins.
pub open spec fn last_assigned(objs: Seq<FieldObject>, k: nat) -> Option<Measurement>
    decreases objs.len(),
{
    if objs.len() == 0 {
        None
    } else {
        match assigned(objs.last()) {
            Some(m) if slot(m) == k => Some(m),
            _ => last_assigned(objs.drop_last(), k),
        }
    }
}

/// The three running totals of a telegram.
#[derive(Clone, Copy, Debug, PartialEq, Eq, Structural)]
pub enum Aggregate {
    /// Power delivered minus power received.
    Draw,
    /// The positive active power of all lines.
    Positive,
    /// The negative active power of all lines.
    Negative,
}

/// What one object adds to a running total.
pub open spec fn delta(o: FieldObject, a: Aggregate) -> int {
    match (o, a) {
        (FieldObject::PowerDelivered(v), Aggregate::Draw) => v.scaled as int,
        (FieldObject::PowerReceived(v), Aggregate::Draw) => -v.scaled,
        (FieldObject::InstantaneousActivePowerPlus(_, v), Aggregate::Positive) => v.scaled as int,
        (FieldObject::InstantaneousActivePowerNeg(_, v), Aggregate::Negative) => v.scaled as int,
        _ => 0,
    }
}

/// A running total over all objects; zero where none contributes.
pub open spec fn total(objs: Seq<FieldObject>, a: Aggregate) -> int
    decreases objs.len(),
{
    if objs.len() == 0 {
        0
    } else {
        total(objs.drop_last(), a) + delta(objs.last(), a)
    }
}

/// What slot `k` of the snapshot holds: the aggregate there, or the direct
/// field if it was set.
pub open spec fn entry(objs: Seq<FieldObject>, k: nat) -> Seq<Measurement> {
    if k == DRAW_SLOT {
        seq![Measurement::CurrentElectricityDraw(Decimal { scaled: total(objs, Aggregate::Draw) as i128 })]
    } else if k == POSITIVE_SLOT {
        seq![Measurement::InstantaneousActivePowerPositive(Decimal { scaled: total(objs, Aggregate::Positive) as i128 })]
    } else if k == NEGATIVE_SLOT {
        seq![Measurement::InstantaneousActivePowerNegative(Decimal { scaled: total(objs, Aggregate::Negative) as i128 })]
    } else {
        match last_assigned(objs, k) {
            Some(m) => seq![m],
            None => Seq::empty(),
        }
    }
}

/// The entries of the first `n` slots, in canonical order.
pub open spec fn snapshot_upto(objs: Seq<FieldObject>, n: nat) -> Seq<Measurement>
    decreases n,
{
    if n == 0 {
        Seq::empty()
    } else {
        snapshot_upto(objs, (n - 1) as nat) + entry(objs, (n - 1) as nat)
    }
}

/// The fields of the snapshot of a telegram, in canonical order.
pub open spec fn snapshot(objs: Seq<FieldObject>) -> Seq<Measurement> {
    snapshot_upto(objs, FIELD_COUNT as nat)
}

/// The name of a field, as it stands in its topic.
pub open spec fn field_name(m: Measurement) -> Seq<char> {
    match m {
        Measurement::ActiveTariff(_) => "ELECTRICITY_ACTIVE_TARIFF"@,
        Measurement::ElectricityUsedT1(_) => "ELECTRICITY_USED_TARIFF_1"@,
        Measurement::ElectricityUsedT2(_) => "ELECTRICITY_USED_TARIFF_2"@,
        Measurement::ElectricityDeliveredT1(_) => "ELECTRICITY_DELIVERED_TARIFF_1"@,
        Measurement::ElectricityDeliveredT2(_) => "ELECTRICITY_DELIVERED_TARIFF_2"@,
        Measurement::CurrentElectricityUsage(_) => "CURRENT_ELECTRICITY_USAGE"@,
        Measurement::CurrentElectricityDelivery(_) => "CURRENT_ELECTRICITY_DELIVERY"@,
        Measurement::CurrentElectricityDraw(_) => "CURRENT_ELECTRICITY_DRAW"@,
        Measurement::InstantaneousActivePowerPositive(_) => "INSTANTANEOUS_ACTIVE_POWER_POSITIVE"@,
        Measurement::InstantaneousActivePowerNegative(_) => "INSTANTANEOUS_ACTIVE_POWER_NEGATIVE"@,
        Measurement::HourlyGasMeterReading(_) => "HOURLY_GAS_METER_READING"@,
    }
}

/// The value of a field as text: the tariff as `"1"` or `"2"`, a number in
/// its canonical decimal form.
pub open spec fn value_text(m: Measurement) -> Seq<char> {
    match m {
        Measurement::ActiveTariff(TariffDef::Tariff1) => seq!['1'],
        Measurement::ActiveTariff(TariffDef::Tariff2) => seq!['2'],
        Measurement::ElectricityUsedT1(v) => decimal_text(v.scaled as int),
        Measurement::ElectricityUsedT2(v) => decimal_text(v.scaled as int),
        Measurement::ElectricityDeliveredT1(v) => decimal_text(v.scaled as int),
        Measurement::ElectricityDeliveredT2(v) => decimal_text(v.scaled as int),
        Measurement::CurrentElectricityUsage(v) => decimal_text(v.scaled as int),
        Measurement::CurrentElectricityDelivery(v) => decimal_text(v.scaled as int),
        Measurement::CurrentElectricityDraw(v) => decimal_text(v.scaled as int),
        Measurement::InstantaneousActivePowerPositive(v) => decimal_text(v.scaled as int),
        Measurement::InstantaneousActivePowerNegative(v) => decimal_text(v.scaled as int),
        Measurement::HourlyGasMeterReading(v) => decimal_text(v.scaled as int),
    }
}

/// `msg` publishes field `m` under `prefix` at level `qos`, retained.
pub open spec fn is_message_of(msg: Message, m: Measurement, prefix: Seq<char>, qos: rumqttc::QoS) -> bool {
    &&& msg.topic@ == prefix + seq!['/'] + field_name(m)
    &&& msg.payload@ == encode_utf8(value_text(m))
    &&& msg.qos == qos
    &&& msg.retain
}

impl Measurement {
    /// The active tariff that a tariff indicator's octets name, if any.
    pub fn parse_tariff(octets: &Vec<u8>) -> (r: Option<Measurement>)
        ensures
            r == (match tariff_of_octets(octets@) {
                Some(t) => Some(Measurement::ActiveTariff(t)),
                None => None,
            }),
    {
        // Once the sum is past two it names no tariff, whatever follows.
        let mut sum: u64 = 0;
        let mut i: usize = 0;
        while i < octets.len()
            invariant
                i <= octets@.len(),
                sum <= 257,
                octet_sum(octets@.take(i as int)) <= 2 ==> sum == octet_sum(octets@.take(i as int)),
                octet_sum(octets@.take(i as int)) > 2 ==> sum > 2,
            decreases octets@.len() - i,
        {
            assert(octets@.take(i + 1).drop_last() == octets@.take(i as int));
            if sum <= 2 {
                sum = sum + octets[i] as u64;
            }
            i = i + 1;
        }
        assert(octets@.take(octets@.len() as int) == octets@);
        if sum == 1 {
            Some(Measurement::ActiveTariff(TariffDef::Tariff1))
        } else if sum == 2 {
            Some(Measurement::ActiveTariff(TariffDef::Tariff2))
        } else {
            None
        }
    }

    /// The text of the value.
    pub fn to_text(&self) -> (r: String)
        ensures
            r@ == value_text(*self),
    {
        proof {
            reveal_strlit("1");
            reveal_strlit("2");
        }
        match self {
            Measurement::ActiveTariff(TariffDef::Tariff1) => String::from_str("1"),
            Measurement::ActiveTariff(TariffDef::Tariff2) => String::from_str("2"),
            Measurement::ElectricityUsedT1(v)
            | Measurement::ElectricityUsedT2(v)
            | Measurement::ElectricityDeliveredT1(v)
            | Measurement::ElectricityDeliveredT2(v)
            | Measurement::CurrentElectricityUsage(v)
            | Measurement::CurrentElectricityDelivery(v)
            | Measurement::CurrentElectricityDraw(v)
            | Measurement::InstantaneousActivePowerPositive(v)
            | Measurement::InstantaneousActivePowerNegative(v)
            | Measurement::HourlyGasMeterReading(v) => v.to_text(),
        }
    }

    /// The bytes of the text of the value.
    pub fn to_vec(&self) -> (r: Vec<u8>)
        ensures
            r@ == encode_utf8(value_text(*self)),
    {
        self.to_text().as_str().as_bytes_vec()
    }

    /// The name of the field, as it stands in its topic.
    pub fn to_topic(&self) -> (r: &'static str)
        ensures
            r@ == field_name(*self),
    {
        match self {
            Measurement::ActiveTariff(_) => "ELECTRICITY_ACTIVE_TARIFF",
            Measurement::ElectricityUsedT1(_) => "ELECTRICITY_USED_TARIFF_1",
            Measurement::ElectricityUsedT2(_) => "ELECTRICITY_USED_TARIFF_2",
            Measurement::ElectricityDeliveredT1(_) => "ELECTRICITY_DELIVERED_TARIFF_1",
            Measurement::ElectricityDeliveredT2(_) => "ELECTRICITY_DELIVERED_TARIFF_2",
            Measurement::CurrentElectricityUsage(_) => "CURRENT_ELECTRICITY_USAGE",
            Measurement::CurrentElectricityDelivery(_) => "CURRENT_ELECTRICITY_DELIVERY",
            Measurement::CurrentElectricityDraw(_) => "CURRENT_ELECTRICITY_DRAW",
            Measurement::InstantaneousActivePowerPositive(_) => "INSTANTANEOUS_ACTIVE_POWER_POSITIVE",
            Measurement::InstantaneousActivePowerNegative(_) => "INSTANTANEOUS_ACTIVE_POWER_NEGATIVE",
            Measurement::HourlyGasMeterReading(_) => "HOURLY_GAS_METER_READING",
        }
    }

    /// The retained message that publishes this field under `prefix`.
    pub fn to_mqtt_messsage(&self, prefix: &str, qos: rumqttc::QoS) -> (r: Message)
        ensures
            is_message_of(r, *self, prefix@, qos),
    {
        proof {
            reveal_strlit("/");
        }
        let mut topic = String::from_str(prefix);
        topic.append("/");
        topic.append(self.to_topic());
        assert(topic@ =~= prefix@ + seq!['/'] + field_name(*self));
        Message::new(topic, qos, true, self.to_vec())
    }
}

/// The field in slot `k` that stands last in `ms`.
pub open spec fn last_in(ms: Seq<Measurement>, k: nat) -> Option<Measurement>
    decreases ms.len(),
{
    if ms.len() == 0 {
        None
    } else if slot(ms.last()) == k {
        Some(ms.last())
    } else {
        last_in(ms.drop_last(), k)
    }
}

/// The active tariff as a number: 1 or 2, and 0 where none is known.
pub open spec fn tariff_number(ms: Seq<Measurement>) -> nat {
    match last_in(ms, 0) {
        Some(Measurement::ActiveTariff(TariffDef::Tariff1)) => 1,
        Some(Measurement::ActiveTariff(TariffDef::Tariff2)) => 2,
        _ => 0,
    }
}

/// The electricity used under the first tariff, 0 where it is not known.
pub open spec fn used_t1(ms: Seq<Measurement>) -> int {
    match last_in(ms, 1) {
        Some(Measurement::ElectricityUsedT1(v)) => v.scaled as int,
        _ => 0,
    }
}

/// The electricity used under the second tariff, 0 where it is not known.
pub open spec fn used_t2(ms: Seq<Measurement>) -> int {
    match last_in(ms, 2) {
        Some(Measurement::ElectricityUsedT2(v)) => v.scaled as int,
        _ => 0,
    }
}

/// The record line of a snapshot: its time, the tariff number and the
/// electricity used under each tariff, separated by tabs.
pub open spec fn report_line(timestamp: Seq<char>, ms: Seq<Measurement>) -> Seq<char> {
    timestamp + seq!['\t'] + digits(tariff_number(ms)) + seq!['\t'] + decimal_text(used_t1(ms))
        + seq!['\t'] + decimal_text(used_t2(ms))
}

impl Measurement {
    /// The position of this field in the canonical order.
    pub fn slot_index(&self) -> (r: usize)
        ensures
            r == slot(*self),
    {
        match self {
            Measurement::ActiveTariff(_) => 0,
            Measurement::ElectricityUsedT1(_) => 1,
            Measurement::ElectricityUsedT2(_) => 2,
            Measurement::ElectricityDeliveredT1(_) => 3,
            Measurement::ElectricityDeliveredT2(_) => 4,
            Measurement::CurrentElectricityUsage(_) => 5,
            Measurement::CurrentElectricityDelivery(_) => 6,
            Measurement::CurrentElectricityDraw(_) => 7,
            Measurement::InstantaneousActivePowerPositive(_) => 8,
            Measurement::InstantaneousActivePowerNegative(_) => 9,
            Measurement::HourlyGasMeterReading(_) => 10,
        }
    }
}

impl FieldObject {
    /// The direct field that this object sets, if any.
    pub fn assigned_field(&self) -> (r: Option<Measurement>)
        ensures
            r == assigned(*self),
    {
        match self {
            FieldObject::TariffIndicator(octets) => Measurement::parse_tariff(octets),
            FieldObject::MeterReadingTo(TariffDef::Tariff1, v) => Some(
                Measurement::ElectricityUsedT1(*v),
            ),
            FieldObject::MeterReadingTo(TariffDef::Tariff2, v) => Some(
                Measurement::ElectricityUsedT2(*v),
            ),
            FieldObject::MeterReadingBy(TariffDef::Tariff1, v) => Some(
                Measurement::ElectricityDeliveredT1(*v),
            ),
            FieldObject::MeterReadingBy(TariffDef::Tariff2, v) => Some(
                Measurement::ElectricityDeliveredT2(*v),
            ),
            FieldObject::PowerDelivered(v) => Some(Measurement::CurrentElectricityUsage(*v)),
            FieldObject::PowerReceived(v) => Some(Measurement::CurrentElectricityDelivery(*v)),
            FieldObject::GasMeterReading(v) => Some(Measurement::HourlyGasMeterReading(*v)),
            _ => None,
        }
    }
}

/// The snapshot of one telegram: when it was taken, and its fields in
/// canonical order.
pub struct Measurements {
    pub timestamp: String,
    pub measurements: Vec<Measurement>,
}

/// The time now, in RFC 3339 form.
///
/// Relies on `chrono::Local::now` and `DateTime::to_rfc3339`; nothing is
/// claimed of the value, which depends on the clock.
#[verifier::external_body]
fn now_rfc3339() -> String {
    chrono::Local::now().to_rfc3339()
}

impl Measurements {
    /// Folds a telegram's field objects into a snapshot taken at `timestamp`.
    ///
    /// A direct field holds the value of the last object that sets it (a
    /// tariff indicator naming no tariff sets nothing); the draw and the two
    /// power totals are sums over all objects, zero where none contributes.
    /// The draw is summed over every power-delivered and power-received
    /// object, whether or not the other kind occurs.
    pub fn build_at(objs: &Vec<FieldObject>, timestamp: String) -> (r: Measurements)
        requires
            objs@.len() <= u32::MAX,
            forall|i: int| 0 <= i < objs@.len() ==> (#[trigger] objs@[i]).is_wf(),
        ensures
            r.timestamp@ == timestamp@,
            r.measurements@ == snapshot(objs@),
    {
        let mut slots: Vec<Option<Measurement>> = Vec::new();
        while slots.len() < FIELD_COUNT
            invariant
                slots@.len() <= FIELD_COUNT,
                forall|k: int| 0 <= k < slots@.len() ==> (#[trigger] slots@[k]).is_none(),
            decreases FIELD_COUNT - slots@.len(),
        {
            slots.push(None);
        }
        let mut draw: i128 = 0;
        let mut positive: i128 = 0;
        let mut negative: i128 = 0;
        let mut i: usize = 0;
        while i < objs.len()
            invariant
                i <= objs@.len() <= u32::MAX,
                forall|j: int| 0 <= j < objs@.len() ==> (#[trigger] objs@[j]).is_wf(),
                slots@.len() == FIELD_COUNT,
                forall|k: int|
                    0 <= k < FIELD_COUNT ==> #[trigger] slots@[k] == last_assigned(
                        objs@.take(i as int),
                        k as nat,
                    ),
                draw == total(objs@.take(i as int), Aggregate::Draw),
                positive == total(objs@.take(i as int), Aggregate::Positive),
                negative == total(objs@.take(i as int), Aggregate::Negative),
                -(i * MAX_READING) <= draw <= i * MAX_READING,
                0 <= positive <= i * MAX_READING,
                0 <= negative <= i * MAX_READING,
            decreases objs@.len() - i,
        {
            let o = &objs[i];
            proof {
                assert(objs@.take(i + 1).drop_last() == objs@.take(i as int));
                assert(objs@.take(i + 1).last() == objs@[i as int]);
                assert(o.is_wf());
            }
            match o.assigned_field() {
                Some(m) => {
                    let k = m.slot_index();
                    slots.set(k, Some(m));
                },
                None => {},
            }
            match o {
                FieldObject::PowerDelivered(v) => {
                    draw = draw + v.scaled;
                },
                FieldObject::PowerReceived(v) => {
                    draw = draw - v.scaled;
                },
                FieldObject::InstantaneousActivePowerPlus(_, v) => {
                    positive = positive + v.scaled;
                },
                FieldObject::InstantaneousActivePowerNeg(_, v) => {
                    negative = negative + v.scaled;
                },
                _ => {},
            }
            i = i + 1;
        }
        assert(objs@.take(objs@.len() as int) == objs@);
        let mut measurements: Vec<Measurement> = Vec::new();
        let mut k: usize = 0;
        while k < FIELD_COUNT
            invariant
                k <= FIELD_COUNT,
                slots@.len() == FIELD_COUNT,
                forall|j: int|
                    0 <= j < FIELD_COUNT ==> #[trigger] slots@[j] == last_assigned(objs@, j as nat),
                draw == total(objs@, Aggregate::Draw),
                positive == total(objs@, Aggregate::Positive),
                negative == total(objs@, Aggregate::Negative),
                measurements@ == snapshot_upto(objs@, k as nat),
            decreases FIELD_COUNT - k,
        {
            if k == DRAW_SLOT {
                measurements.push(Measurement::CurrentElectricityDraw(Decimal { scaled: draw }));
            } else if k == POSITIVE_SLOT {
                measurements.push(
                    Measurement::InstantaneousActivePowerPositive(Decimal { scaled: positive }),
                );
            } else if k == NEGATIVE_SLOT {
                measurements.push(
                    Measurement::InstantaneousActivePowerNegative(Decimal { scaled: negative }),
                );
            } else {
                match slots[k] {
                    Some(m) => {
                        measurements.push(m);
                    },
                    None => {},
                }
            }
            k = k + 1;
        }
        Measurements { timestamp, measurements }
    }

    /// Folds a telegram's field objects into a snapshot taken now, as
    /// `build_at` describes.
    pub fn build(objs: &Vec<FieldObject>) -> (r: Measurements)
        requires
            objs@.len() <= u32::MAX,
            forall|i: int| 0 <= i < objs@.len() ==> (#[trigger] objs@[i]).is_wf(),
        ensures
            r.measurements@ == snapshot(objs@),
    {
        Measurements::build_at(objs, now_rfc3339())
    }

    /// One retained message per field, in the order of the fields.
    pub fn into_mqtt_messages(self, prefix: String, qos: rumqttc::QoS) -> (r: Vec<Message>)
        ensures
            r@.len() == self.measurements@.len(),
            forall|i: int|
                0 <= i < r@.len() ==> is_message_of(
                    #[trigger] r@[i],
                    self.measurements@[i],
                    prefix@,
                    qos,
                ),
    {
        let mut out: Vec<Message> = Vec::new();
        let mut i: usize = 0;
        while i < self.measurements.len()
            invariant
                i <= self.measurements@.len(),
                out@.len() == i,
                forall|j: int|
                    0 <= j < i ==> is_message_of(
                        #[trigger] out@[j],
                        self.measurements@[j],
                        prefix@,
                        qos,
                    ),
            decreases self.measurements@.len() - i,
        {
            out.push(self.measurements[i].to_mqtt_messsage(prefix.as_str(), qos));
            i = i + 1;
        }
        out
    }

    /// The record line of this snapshot: its time, the tariff as a number
    /// (0 where none is known), and the electricity used under each tariff
    /// (0 where not known), separated by tabs.
    pub fn report(&self) -> (r: String)
        ensures
            r@ == report_line(self.timestamp@, self.measurements@),
    {
        let ghost ms = self.measurements@;
        let mut tariff: u8 = 0;
        let mut t1: Decimal = Decimal::zero();
        let mut t2: Decimal = Decimal::zero();
        let mut i: usize = 0;
        while i < self.measurements.len()
            invariant
                ms == self.measurements@,
                i <= ms.len(),
                tariff == tariff_number(ms.take(i as int)),
                t1.scaled == used_t1(ms.take(i as int)),
                t2.scaled == used_t2(ms.take(i as int)),
            decreases ms.len() - i,
        {
            proof {
                assert(ms.take(i + 1).drop_last() == ms.take(i as int));
                assert(ms.take(i + 1).last() == ms[i as int]);
            }
            match self.measurements[i] {
                Measurement::ActiveTariff(TariffDef::Tariff1) => {
                    tariff = 1;
                },
                Measurement::ActiveTariff(TariffDef::Tariff2) => {
                    tariff = 2;
                },
                Measurement::ElectricityUsedT1(v) => {
                    t1 = v;
                },
                Measurement::ElectricityUsedT2(v) => {
                    t2 = v;
                },
                _ => {},
            }
            i = i + 1;
        }
        assert(ms.take(ms.len() as int) == ms);
        proof {
            reveal_strlit("\t");
        }
        let mut line = self.timestamp.clone();
        line.append("\t");
        push_digits(&mut line, tariff as u128);
        line.append("\t");
        line.append(t1.to_text().as_str());
        line.append("\t");
        line.append(t2.to_text().as_str());
        assert(line@ =~= report_line(self.timestamp@, ms));
        line
    }
}

} // verus!

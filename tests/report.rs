use dsmr2mqtt::decimal::Decimal;
use dsmr2mqtt::mqtt::Message;
use dsmr2mqtt::report::{FieldObject, Line, Measurement, Measurements, TariffDef};
use dsmr5::types::{OctetString, UFixedDouble};
use dsmr5::{Tariff, OBIS};
use rumqttc::QoS;

fn octets(o: &OctetString) -> Vec<u8> {
    o.as_octets().collect::<Result<Vec<u8>, _>>().unwrap()
}

fn decimal(v: &UFixedDouble) -> Decimal {
    let value = serde_json::to_value(v).unwrap();
    let buffer = value["buffer"].as_u64().unwrap();
    let point = value["point"].as_u64().unwrap() as u8;
    Decimal::from_fixed(buffer, point).unwrap()
}

fn tariff(t: &Tariff) -> TariffDef {
    match t {
        Tariff::Tariff1 => TariffDef::Tariff1,
        Tariff::Tariff2 => TariffDef::Tariff2,
    }
}

fn line(l: &dsmr5::Line) -> Line {
    match l {
        dsmr5::Line::Line1 => Line::Line1,
        dsmr5::Line::Line2 => Line::Line2,
        dsmr5::Line::Line3 => Line::Line3,
    }
}

fn field_object(o: &OBIS) -> FieldObject {
    match o {
        OBIS::TariffIndicator(v) => FieldObject::TariffIndicator(octets(v)),
        OBIS::MeterReadingTo(t, v) => FieldObject::MeterReadingTo(tariff(t), decimal(v)),
        OBIS::MeterReadingBy(t, v) => FieldObject::MeterReadingBy(tariff(t), decimal(v)),
        OBIS::PowerDelivered(v) => FieldObject::PowerDelivered(decimal(v)),
        OBIS::PowerReceived(v) => FieldObject::PowerReceived(decimal(v)),
        OBIS::InstantaneousActivePowerPlus(l, v) => {
            FieldObject::InstantaneousActivePowerPlus(line(l), decimal(v))
        }
        OBIS::InstantaneousActivePowerNeg(l, v) => {
            FieldObject::InstantaneousActivePowerNeg(line(l), decimal(v))
        }
        OBIS::SlaveMeterReading(_, _, Some(v)) => FieldObject::GasMeterReading(decimal(v)),
        _ => FieldObject::Other,
    }
}

fn dec(mantissa: u64, point: u8) -> Decimal {
    Decimal::from_fixed(mantissa, point).unwrap()
}

fn texts(m: &Measurements) -> Vec<(String, String)> {
    m.measurements
        .iter()
        .map(|x| (x.to_topic().to_string(), x.to_text()))
        .collect()
}

fn topics_and_payloads(msgs: &[Message]) -> Vec<(String, Vec<u8>)> {
    msgs.iter()
        .map(|m| (m.topic.clone(), m.payload.clone()))
        .collect()
}

#[test]
fn test_parse_tarrif() {
    let t = OctetString::parse("(01)", 2).unwrap();
    let m = Measurement::parse_tariff(&octets(&t)).unwrap();
    assert!(matches!(m, Measurement::ActiveTariff(TariffDef::Tariff1)));

    let t = OctetString::parse("(02)", 2).unwrap();
    let m = Measurement::parse_tariff(&octets(&t)).unwrap();
    assert!(matches!(m, Measurement::ActiveTariff(TariffDef::Tariff2)));

    let t = OctetString::parse("(04)", 2).unwrap();
    assert!(Measurement::parse_tariff(&octets(&t)).is_none());
}

#[test]
fn test_to_vec() {
    // Tariff
    assert_eq!(
        "1".as_bytes().to_vec(),
        Measurement::ActiveTariff(TariffDef::Tariff1).to_vec()
    );
    assert_eq!(
        "2".as_bytes().to_vec(),
        Measurement::ActiveTariff(TariffDef::Tariff2).to_vec()
    );

    // The Rest
    let num = dec(42, 0);
    let numv = 42.0f64.to_string().as_bytes().to_vec();

    assert_eq!(numv, Measurement::ElectricityUsedT1(num).to_vec());
    assert_eq!(numv, Measurement::ElectricityUsedT2(num).to_vec());
    assert_eq!(numv, Measurement::ElectricityDeliveredT1(num).to_vec());
    assert_eq!(numv, Measurement::ElectricityDeliveredT2(num).to_vec());
    assert_eq!(numv, Measurement::CurrentElectricityUsage(num).to_vec());
    assert_eq!(numv, Measurement::CurrentElectricityDelivery(num).to_vec());
    assert_eq!(numv, Measurement::CurrentElectricityDraw(num).to_vec());
    assert_eq!(
        numv,
        Measurement::InstantaneousActivePowerPositive(num).to_vec()
    );
    assert_eq!(
        numv,
        Measurement::InstantaneousActivePowerNegative(num).to_vec()
    );
    assert_eq!(numv, Measurement::HourlyGasMeterReading(num).to_vec());
}

#[test]
fn test_obis_iterator() {
    let double1 = || UFixedDouble::parse("(42.24)", 4, 2).unwrap();
    let double2 = || UFixedDouble::parse("(236.1)", 4, 1).unwrap();
    let double3 = || UFixedDouble::parse("(13.37)", 4, 2).unwrap();

    let f_1 = dec(4224, 2);
    let f_2 = dec(2361, 1);
    let f_3 = dec(1337, 2);

    let tst = dsmr5::types::TST::parse("(190320181003W)").unwrap();

    let obis: Vec<OBIS<'_>> = vec![
        OBIS::TariffIndicator(OctetString::parse("(01)", 2).unwrap()),
        OBIS::MeterReadingTo(Tariff::Tariff1, double1()),
        OBIS::MeterReadingTo(Tariff::Tariff2, double2()),
        OBIS::MeterReadingBy(Tariff::Tariff1, double3()),
        OBIS::MeterReadingBy(Tariff::Tariff2, double1()),
        OBIS::InstantaneousActivePowerPlus(dsmr5::Line::Line1, double1()),
        OBIS::InstantaneousActivePowerPlus(dsmr5::Line::Line2, double2()),
        OBIS::InstantaneousActivePowerPlus(dsmr5::Line::Line3, double3()),
        OBIS::InstantaneousActivePowerNeg(dsmr5::Line::Line1, double2()),
        OBIS::InstantaneousActivePowerNeg(dsmr5::Line::Line2, double2()),
        OBIS::InstantaneousActivePowerNeg(dsmr5::Line::Line3, double3()),
        OBIS::PowerDelivered(double2()),
        OBIS::PowerReceived(double1()),
        OBIS::SlaveMeterReading(dsmr5::Slave::Slave1, tst, Some(double3())),
    ];

    let expected = vec![
        Measurement::ActiveTariff(TariffDef::Tariff1),
        Measurement::ElectricityUsedT1(f_1),
        Measurement::ElectricityUsedT2(f_2),
        Measurement::ElectricityDeliveredT1(f_3),
        Measurement::ElectricityDeliveredT2(f_1),
        // Sum of all lines
        Measurement::InstantaneousActivePowerPositive(Decimal {
            scaled: f_1.scaled + f_2.scaled + f_3.scaled,
        }),
        Measurement::InstantaneousActivePowerNegative(Decimal {
            scaled: f_2.scaled + f_2.scaled + f_3.scaled,
        }),
        Measurement::CurrentElectricityUsage(f_2),
        Measurement::CurrentElectricityDelivery(f_1),
        // Usage - Delivery
        Measurement::CurrentElectricityDraw(Decimal {
            scaled: f_2.scaled - f_1.scaled,
        }),
        Measurement::HourlyGasMeterReading(f_3),
    ];

    let objects: Vec<FieldObject> = obis.iter().map(field_object).collect();
    let actual = Measurements::build(&objects);

    assert_eq!(expected.clone().len(), actual.measurements.len());

    for item in expected {
        assert!(actual.measurements.iter().any(|el| el == &item));
    }
}

#[test]
fn decimal_text_is_canonical() {
    assert_eq!(dec(123456, 3).to_text(), "123.456");
    assert_eq!(dec(1500, 3).to_text(), "1.5");
    assert_eq!(dec(1000, 3).to_text(), "1");
    assert_eq!(dec(0, 3).to_text(), "0");
    assert_eq!(dec(5, 9).to_text(), "0.000000005");
    assert_eq!(Decimal { scaled: -500_000_000 }.to_text(), "-0.5");
    assert_eq!(Decimal { scaled: i128::MIN }.to_text().len(), 41);
    assert_eq!(dec(u64::MAX, 0).to_text(), "18446744073709551615");
}

#[test]
fn decimal_from_fixed_scales_and_rejects_too_many_places() {
    assert_eq!(dec(4224, 2).scaled, 42_240_000_000);
    assert_eq!(dec(7, 9).scaled, 7);
    assert!(Decimal::from_fixed(1, 10).is_none());
    assert_eq!(Decimal::zero().scaled, 0);
}

#[test]
fn tariff_sum_decides() {
    assert_eq!(
        Measurement::parse_tariff(&vec![0, 1, 0]),
        Some(Measurement::ActiveTariff(TariffDef::Tariff1))
    );
    assert_eq!(
        Measurement::parse_tariff(&vec![1, 1]),
        Some(Measurement::ActiveTariff(TariffDef::Tariff2))
    );
    assert_eq!(Measurement::parse_tariff(&vec![]), None);
    assert_eq!(Measurement::parse_tariff(&vec![3]), None);
    // the sum is exact: it does not wrap round at a byte
    assert_eq!(Measurement::parse_tariff(&vec![255, 2]), None);
}

#[test]
fn unrecognized_tariff_gives_no_tariff_field() {
    let objs = vec![
        FieldObject::TariffIndicator(vec![0, 4]),
        FieldObject::MeterReadingTo(TariffDef::Tariff1, dec(1, 0)),
    ];
    let m = Measurements::build_at(&objs, "t".to_string());
    assert!(!m
        .measurements
        .iter()
        .any(|x| matches!(x, Measurement::ActiveTariff(_))));
    assert_eq!(m.measurements.len(), 4);
}

#[test]
fn later_direct_value_wins() {
    let objs = vec![
        FieldObject::MeterReadingTo(TariffDef::Tariff1, dec(1, 0)),
        FieldObject::TariffIndicator(vec![2]),
        FieldObject::MeterReadingTo(TariffDef::Tariff1, dec(2, 0)),
        FieldObject::TariffIndicator(vec![9]),
    ];
    let m = Measurements::build_at(&objs, "t".to_string());
    assert_eq!(
        m.measurements,
        vec![
            Measurement::ActiveTariff(TariffDef::Tariff2),
            Measurement::ElectricityUsedT1(dec(2, 0)),
            Measurement::CurrentElectricityDraw(Decimal::zero()),
            Measurement::InstantaneousActivePowerPositive(Decimal::zero()),
            Measurement::InstantaneousActivePowerNegative(Decimal::zero()),
        ]
    );
}

#[test]
fn reordering_power_lines_keeps_snapshot() {
    let a = vec![
        FieldObject::InstantaneousActivePowerPlus(Line::Line1, dec(1, 3)),
        FieldObject::PowerDelivered(dec(1500, 3)),
        FieldObject::InstantaneousActivePowerPlus(Line::Line3, dec(20, 3)),
        FieldObject::PowerReceived(dec(500, 3)),
        FieldObject::InstantaneousActivePowerNeg(Line::Line2, dec(7, 3)),
    ];
    let b = vec![
        FieldObject::InstantaneousActivePowerNeg(Line::Line2, dec(7, 3)),
        FieldObject::PowerReceived(dec(500, 3)),
        FieldObject::InstantaneousActivePowerPlus(Line::Line3, dec(20, 3)),
        FieldObject::PowerDelivered(dec(1500, 3)),
        FieldObject::InstantaneousActivePowerPlus(Line::Line1, dec(1, 3)),
    ];
    let ma = Measurements::build_at(&a, "t".to_string());
    let mb = Measurements::build_at(&b, "t".to_string());
    assert_eq!(ma.measurements, mb.measurements);
}

#[test]
fn power_totals_sum_present_lines() {
    let objs = vec![
        FieldObject::InstantaneousActivePowerPlus(Line::Line2, dec(250, 3)),
        FieldObject::InstantaneousActivePowerNeg(Line::Line1, dec(100, 3)),
        FieldObject::InstantaneousActivePowerNeg(Line::Line3, dec(25, 3)),
        FieldObject::Other,
    ];
    let m = Measurements::build_at(&objs, "t".to_string());
    assert!(m
        .measurements
        .contains(&Measurement::InstantaneousActivePowerPositive(dec(250, 3))));
    assert!(m
        .measurements
        .contains(&Measurement::InstantaneousActivePowerNegative(dec(125, 3))));
}

#[test]
fn empty_telegram_still_publishes_aggregates() {
    let m = Measurements::build(&vec![]);
    let msgs = m.into_mqtt_messages("p".to_string(), QoS::AtMostOnce);
    assert_eq!(
        topics_and_payloads(&msgs),
        vec![
            ("p/CURRENT_ELECTRICITY_DRAW".to_string(), b"0".to_vec()),
            ("p/INSTANTANEOUS_ACTIVE_POWER_POSITIVE".to_string(), b"0".to_vec()),
            ("p/INSTANTANEOUS_ACTIVE_POWER_NEGATIVE".to_string(), b"0".to_vec()),
        ]
    );
    assert!(msgs.iter().all(|m| m.retain));
}

#[test]
fn full_telegram_gives_eleven_messages_in_order() {
    let objs = vec![
        FieldObject::GasMeterReading(dec(12345, 3)),
        FieldObject::PowerReceived(dec(2, 0)),
        FieldObject::PowerDelivered(dec(1, 0)),
        FieldObject::MeterReadingBy(TariffDef::Tariff2, dec(4, 0)),
        FieldObject::MeterReadingBy(TariffDef::Tariff1, dec(3, 0)),
        FieldObject::MeterReadingTo(TariffDef::Tariff2, dec(2, 0)),
        FieldObject::MeterReadingTo(TariffDef::Tariff1, dec(1, 0)),
        FieldObject::TariffIndicator(vec![0, 2]),
    ];
    let m = Measurements::build_at(&objs, "t".to_string());
    let msgs = m.into_mqtt_messages("dsmr".to_string(), QoS::AtLeastOnce);
    let topics: Vec<String> = msgs.iter().map(|m| m.topic.clone()).collect();
    assert_eq!(
        topics,
        vec![
            "dsmr/ELECTRICITY_ACTIVE_TARIFF",
            "dsmr/ELECTRICITY_USED_TARIFF_1",
            "dsmr/ELECTRICITY_USED_TARIFF_2",
            "dsmr/ELECTRICITY_DELIVERED_TARIFF_1",
            "dsmr/ELECTRICITY_DELIVERED_TARIFF_2",
            "dsmr/CURRENT_ELECTRICITY_USAGE",
            "dsmr/CURRENT_ELECTRICITY_DELIVERY",
            "dsmr/CURRENT_ELECTRICITY_DRAW",
            "dsmr/INSTANTANEOUS_ACTIVE_POWER_POSITIVE",
            "dsmr/INSTANTANEOUS_ACTIVE_POWER_NEGATIVE",
            "dsmr/HOURLY_GAS_METER_READING",
        ]
    );
    assert_eq!(msgs[7].payload, b"-1".to_vec());
    assert_eq!(msgs[10].payload, b"12.345".to_vec());
    assert!(msgs
        .iter()
        .all(|m| m.retain && matches!(m.qos, QoS::AtLeastOnce)));
}

#[test]
fn round_trip_scenario() {
    let objs = vec![
        FieldObject::TariffIndicator(vec![0, 1]),
        FieldObject::MeterReadingTo(TariffDef::Tariff1, dec(123456, 3)),
        FieldObject::PowerDelivered(dec(15, 1)),
        FieldObject::PowerReceived(dec(5, 1)),
    ];
    let m = Measurements::build_at(&objs, "2024-01-01T00:00:00+00:00".to_string());
    assert_eq!(
        texts(&m),
        vec![
            ("ELECTRICITY_ACTIVE_TARIFF".to_string(), "1".to_string()),
            ("ELECTRICITY_USED_TARIFF_1".to_string(), "123.456".to_string()),
            ("CURRENT_ELECTRICITY_USAGE".to_string(), "1.5".to_string()),
            ("CURRENT_ELECTRICITY_DELIVERY".to_string(), "0.5".to_string()),
            ("CURRENT_ELECTRICITY_DRAW".to_string(), "1".to_string()),
            ("INSTANTANEOUS_ACTIVE_POWER_POSITIVE".to_string(), "0".to_string()),
            ("INSTANTANEOUS_ACTIVE_POWER_NEGATIVE".to_string(), "0".to_string()),
        ]
    );
    let msgs = m.into_mqtt_messages("prefix".to_string(), QoS::AtMostOnce);
    assert_eq!(
        topics_and_payloads(&msgs),
        vec![
            ("prefix/ELECTRICITY_ACTIVE_TARIFF".to_string(), b"1".to_vec()),
            ("prefix/ELECTRICITY_USED_TARIFF_1".to_string(), b"123.456".to_vec()),
            ("prefix/CURRENT_ELECTRICITY_USAGE".to_string(), b"1.5".to_vec()),
            ("prefix/CURRENT_ELECTRICITY_DELIVERY".to_string(), b"0.5".to_vec()),
            ("prefix/CURRENT_ELECTRICITY_DRAW".to_string(), b"1".to_vec()),
            ("prefix/INSTANTANEOUS_ACTIVE_POWER_POSITIVE".to_string(), b"0".to_vec()),
            ("prefix/INSTANTANEOUS_ACTIVE_POWER_NEGATIVE".to_string(), b"0".to_vec()),
        ]
    );
    assert!(msgs
        .iter()
        .all(|m| m.retain && matches!(m.qos, QoS::AtMostOnce)));
}

#[test]
fn report_line_has_tariff_and_usage() {
    let objs = vec![
        FieldObject::TariffIndicator(vec![2]),
        FieldObject::MeterReadingTo(TariffDef::Tariff2, dec(7250, 3)),
    ];
    let m = Measurements::build_at(&objs, "2024-05-01T12:00:00+02:00".to_string());
    assert_eq!(m.report(), "2024-05-01T12:00:00+02:00\t2\t0\t7.25");
    let empty = Measurements::build_at(&vec![], "x".to_string());
    assert_eq!(empty.report(), "x\t0\t0\t0");
}

#[test]
fn message_topic_and_payload() {
    let m = Measurement::HourlyGasMeterReading(dec(1, 3));
    let msg = m.to_mqtt_messsage("home", QoS::ExactlyOnce);
    assert_eq!(msg.topic, "home/HOURLY_GAS_METER_READING");
    assert_eq!(msg.payload, b"0.001".to_vec());
    assert!(msg.retain);
    assert!(matches!(msg.qos, QoS::ExactlyOnce));
    assert_eq!(m.slot_index(), 10);

    let made = Message::new("a/b".to_string(), QoS::AtMostOnce, false, vec![1, 2]);
    assert_eq!(made.topic, "a/b");
    assert!(!made.retain);
    assert_eq!(made.payload, vec![1, 2]);
}

#[test]
fn build_stamps_the_snapshot() {
    let m = Measurements::build(&vec![FieldObject::PowerDelivered(dec(1, 0))]);
    assert!(!m.timestamp.is_empty());
    assert_eq!(m.measurements.len(), 4);
}

#[test]
fn assigned_field_of_objects() {
    assert_eq!(FieldObject::Other.assigned_field(), None);
    assert_eq!(
        FieldObject::InstantaneousActivePowerPlus(Line::Line1, dec(1, 0)).assigned_field(),
        None
    );
    assert_eq!(
        FieldObject::PowerReceived(dec(3, 0)).assigned_field(),
        Some(Measurement::CurrentElectricityDelivery(dec(3, 0)))
    );
}

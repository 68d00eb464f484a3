use solbridxml2mqtt::decode::{decode, decode_tokens, DecodeError};
use solbridxml2mqtt::reading::MeasurementSample;
use solbridxml2mqtt::tokens::{Attribute, Element, Token};
use solbridxml2mqtt::translate::{batch_points, publish_messages, Delivery};

const STATUS: &str = r#"<Root><Device Name="Inv1" Serial="SN1"><Measurements><Measurement Type="Voltage_L1" Value="230.5" Unit="V"/><Measurement Type="Status" Type2=""/></Measurements></Device></Root>"#;

fn attribute(name: &str, value: &str) -> Attribute {
    Attribute { prefix: None, name: name.to_string(), value: value.to_string() }
}

fn open(name: &str, attributes: Vec<Attribute>) -> Token {
    Token::Open(Element { prefix: None, name: name.to_string(), attributes })
}

fn sample(kind: &str, raw_value: Option<&str>, unit: Option<&str>) -> MeasurementSample {
    MeasurementSample {
        kind: kind.to_string(),
        raw_value: raw_value.map(str::to_string),
        unit: unit.map(str::to_string),
    }
}

/// The tokens of a document with these measurements.
fn tokens(measurements: Vec<Token>) -> Vec<Token> {
    let mut all = vec![
        Token::Other,
        open("Root", vec![]),
        open("Device", vec![attribute("Name", "Inv1"), attribute("Serial", "SN1")]),
        open("Measurements", vec![]),
    ];
    all.extend(measurements);
    all.extend([Token::Close, Token::Close, Token::Close, Token::End]);
    all
}

#[test]
fn one_sample_with_value_reaches_both_sinks() {
    let reading = decode(STATUS).unwrap();
    assert_eq!(reading.name(), "Inv1");
    assert_eq!(reading.serial(), "SN1");
    assert_eq!(
        reading.samples(),
        &vec![sample("Voltage_L1", Some("230.5"), Some("V")), sample("Status", None, None)]
    );

    let messages = publish_messages(&reading);
    assert_eq!(messages.len(), 1);
    assert_eq!(messages[0].topic, "inverter/SN1/Voltage_L1");
    assert_eq!(messages[0].payload, "230.5 V");
    assert_eq!(messages[0].delivery, Delivery::AtLeastOnce);
    assert!(!messages[0].retain);

    let batch = batch_points(&reading);
    assert_eq!(batch.len(), 1);
    assert_eq!(batch[0].measurement, "inverter_data");
    assert_eq!(batch[0].value, "230.5");
}

#[test]
fn decoding_twice_gives_the_same() {
    assert_eq!(decode(STATUS), decode(STATUS));
    assert_eq!(decode("<Root/>"), decode("<Root/>"));
    assert_eq!(decode("<Root"), decode("<Root"));
}

#[test]
fn every_measurement_gives_one_sample_in_order() {
    let mut body = String::new();
    let mut expected = Vec::new();
    for i in 0..50 {
        let kind = format!("K{}", i);
        if i % 3 == 0 {
            body.push_str(&format!(r#"<Measurement Type="{}"/>"#, kind));
            expected.push(sample(&kind, None, None));
        } else {
            body.push_str(&format!(r#"<Measurement Unit="u" Value="{}" Type="{}"/>"#, i, kind));
            expected.push(sample(&kind, Some(&i.to_string()), Some("u")));
        }
    }
    let text = format!(
        r#"<Root><Device Name="n" Serial="s"><Measurements>{}</Measurements></Device></Root>"#,
        body
    );
    let reading = decode(&text).unwrap();
    assert_eq!(reading.samples(), &expected);
}

#[test]
fn an_empty_value_is_a_value() {
    let text = r#"<Root><Device Name="n" Serial="s"><Measurements><Measurement Type="t" Value=""/></Measurements></Device></Root>"#;
    let reading = decode(text).unwrap();
    assert_eq!(reading.samples()[0].raw_value, Some(String::new()));
}

#[test]
fn references_are_resolved() {
    let text = r#"<Root><Device Name="a&amp;b" Serial="&#83;1"><Measurements><Measurement Type="T&lt;" Value="&quot;1&quot;" Unit="&#176;C"/></Measurements></Device></Root>"#;
    let reading = decode(text).unwrap();
    assert_eq!(reading.name(), "a&b");
    assert_eq!(reading.serial(), "S1");
    assert_eq!(reading.samples(), &vec![sample("T<", Some("\"1\""), Some("°C"))]);
}

#[test]
fn broken_markup_is_malformed() {
    for text in ["", "plain", "<Root><Device", "<Root></Device>", "<Root>", "<a><b></a></b>"] {
        assert_eq!(decode(text).unwrap_err(), DecodeError::Malformed, "{:?}", text);
    }
    let after_the_root = format!("{}<open", STATUS);
    assert_eq!(decode(&after_the_root).unwrap_err(), DecodeError::Malformed);
}

#[test]
fn another_shape_is_a_mismatch() {
    for text in [
        "<Root/>",
        r#"<Root><Device Name="n" Serial="s"/></Root>"#,
        r#"<Root><Device Name="n" Serial="s"><Measurements/></Device></Root>"#,
        r#"<Root><Device Name="n"><Measurements><Measurement Type="A"/></Measurements></Device></Root>"#,
        r#"<Root><Device Serial="s"><Measurements><Measurement Type="A"/></Measurements></Device></Root>"#,
        r#"<Root><Device Name="n" Serial="s"><Measurements><Measurement Value="1"/></Measurements></Device></Root>"#,
        r#"<Root><Device Name="n" Serial="s"><Measurements><Measurement Type="A"/><x/><Measurement Type="B"/></Measurements></Device></Root>"#,
    ] {
        assert_eq!(decode(text).unwrap_err(), DecodeError::Mismatch, "{:?}", text);
    }
}

#[test]
fn a_device_without_identity_is_a_mismatch() {
    let nameless = r#"<Root><Device Name="" Serial="s"><Measurements><Measurement Type="A"/></Measurements></Device></Root>"#;
    assert_eq!(decode(nameless).unwrap_err(), DecodeError::Mismatch);
    let without_serial = r#"<Root><Device Name="n" Serial=""><Measurements><Measurement Type="A"/></Measurements></Device></Root>"#;
    assert_eq!(decode(without_serial).unwrap_err(), DecodeError::Mismatch);
}

#[test]
fn only_the_first_root_counts() {
    let text = format!("{}<Second/>", STATUS);
    assert_eq!(decode(&text), decode(STATUS));
}

#[test]
fn tokens_decode_like_the_document() {
    let measurements = vec![
        open(
            "Measurement",
            vec![attribute("Type", "Voltage_L1"), attribute("Value", "230.5"), attribute("Unit", "V")],
        ),
        Token::Close,
        Token::Other,
        open("Measurement", vec![attribute("Type", "Status"), attribute("Type2", "")]),
        Token::Text("inside".to_string()),
        open("Inner", vec![]),
        Token::Close,
        Token::Close,
    ];
    let reading = decode_tokens(&tokens(measurements)).unwrap();
    assert_eq!(Ok(reading), decode(STATUS));
}

#[test]
fn tokens_that_are_no_document() {
    let mismatch = Err(DecodeError::Mismatch);
    assert_eq!(decode_tokens(&vec![]), mismatch);
    assert_eq!(decode_tokens(&vec![Token::Other, Token::End]), mismatch);
    assert_eq!(decode_tokens(&vec![Token::Text("x".to_string())]), mismatch);
    assert_eq!(decode_tokens(&vec![Token::Close]), mismatch);
    assert_eq!(decode_tokens(&tokens(vec![])), mismatch);
    // an element that is never closed
    let mut open_end = tokens(vec![open("Measurement", vec![attribute("Type", "A")]), Token::Close]);
    open_end.truncate(open_end.len() - 2);
    assert_eq!(decode_tokens(&open_end), mismatch);
    // the end of the document inside the root
    let mut early_end = tokens(vec![open("Measurement", vec![attribute("Type", "A")]), Token::Close]);
    early_end.insert(4, Token::End);
    assert_eq!(decode_tokens(&early_end), mismatch);
    // a name with a prefix is another name
    let prefixed = Token::Open(Element {
        prefix: Some("x".to_string()),
        name: "Measurement".to_string(),
        attributes: vec![attribute("Type", "A")],
    });
    assert_eq!(decode_tokens(&tokens(vec![prefixed, Token::Close])), mismatch);
    let prefixed_type = Attribute {
        prefix: Some("x".to_string()),
        name: "Type".to_string(),
        value: "A".to_string(),
    };
    assert_eq!(
        decode_tokens(&tokens(vec![open("Measurement", vec![prefixed_type]), Token::Close])),
        mismatch
    );
    // an attribute given twice
    let twice = open("Measurement", vec![attribute("Type", "A"), attribute("Unit", "V"), attribute("Unit", "W")]);
    assert_eq!(decode_tokens(&tokens(vec![twice, Token::Close])), mismatch);
    // measurements that do not stand side by side
    let apart = vec![
        open("Measurement", vec![attribute("Type", "A")]),
        Token::Close,
        Token::Text("between".to_string()),
        open("Measurement", vec![attribute("Type", "B")]),
        Token::Close,
    ];
    assert_eq!(decode_tokens(&tokens(apart)), mismatch);
}

#[test]
fn tokens_around_the_run_are_passed_over() {
    let measurements = vec![
        Token::Text("before".to_string()),
        open("Note", vec![]),
        open("Measurement", vec![attribute("Type", "nested")]),
        Token::Close,
        Token::Close,
        open("Measurement", vec![attribute("Type", "A")]),
        Token::Close,
        Token::Other,
        open("Measurement", vec![attribute("Value", "2"), attribute("Type", "B")]),
        Token::Close,
        open("Note", vec![]),
        Token::Close,
        Token::Text("after".to_string()),
    ];
    let reading = decode_tokens(&tokens(measurements)).unwrap();
    assert_eq!(reading.samples(), &vec![sample("A", None, None), sample("B", Some("2"), None)]);
}

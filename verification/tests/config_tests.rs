use ud3tn_aap::config::{ConfigBundle, Contact, ContactDataRate};

#[test]
fn serialize_add() {
    let config_1 = ConfigBundle::AddContact {
        eid: "dtn://ud3tn2.dtn/".into(),
        reliability: None,
        cla_address: "mtcp:127.0.0.1:4223".into(),
        reaches_eid: Vec::new(),
        contacts: vec![
            Contact {
                start: 1401519306972,
                end: 1401519316972,
                data_rate: ContactDataRate::Limited(1200),
            },
            Contact {
                start: 1401519506972,
                end: 1401519516972,
                data_rate: ContactDataRate::Limited(1200),
            },
        ],
    };

    // Contact times render as whole seconds since the DTN epoch: the Unix
    // stamps above minus the 946,684,800-second offset.
    assert_eq!(
        config_1.to_string(),
        "1(dtn://ud3tn2.dtn/):(mtcp:127.0.0.1:4223)::[{1400572622172,1400572632172,1200},{1400572822172,1400572832172,1200}];"
    );

    let config_2 = ConfigBundle::AddContact {
        eid: "dtn://13714/".into(),
        reliability: Some(333),
        cla_address: "tcpspp:".into(),
        reaches_eid: vec!["dtn://18471/".into(), "dtn://81491/".into()],
        contacts: Vec::new(),
    };

    assert_eq!(
        config_2.to_string(),
        "1(dtn://13714/),333:(tcpspp:):[(dtn://18471/),(dtn://81491/)];"
    );
}

#[test]
fn serialize_replace() {
    let config_1 = ConfigBundle::ReplaceContact {
        eid: "dtn://ud3tn2.dtn/".into(),
        reliability: None,
        cla_address: Some("mtcp:127.0.0.1:4223".into()),
        reaches_eid: vec!["dtn://89326/".into(), "dtn://12349/".into()],
        contacts: Vec::new(),
    };

    assert_eq!(
        config_1.to_string(),
        "2(dtn://ud3tn2.dtn/):(mtcp:127.0.0.1:4223):[(dtn://89326/),(dtn://12349/)];"
    );
}

#[test]
fn serialize_delete() {
    let config_1 = ConfigBundle::DeleteContact("dtn://ud3tn2.dtn/".into());
    assert_eq!(config_1.to_string(), "3(dtn://ud3tn2.dtn/);");
}

#[test]
fn serialize_delete_short_eid() {
    let config = ConfigBundle::DeleteContact("dtn://x/".into());
    assert_eq!(config.to_string(), "3(dtn://x/);");
}

#[test]
fn serialize_add_single_contact_literal() {
    let config = ConfigBundle::AddContact {
        eid: "dtn://ud3tn2.dtn/".into(),
        reliability: None,
        cla_address: "mtcp:127.0.0.1:4223".into(),
        reaches_eid: Vec::new(),
        contacts: vec![Contact {
            start: 1401519306972,
            end: 1401519316972,
            data_rate: ContactDataRate::Limited(1200),
        }],
    };
    assert_eq!(
        config.to_string(),
        "1(dtn://ud3tn2.dtn/):(mtcp:127.0.0.1:4223)::[{1400572622172,1400572632172,1200}];"
    );
}

#[test]
fn serialize_add_unlimited_rate() {
    let config = ConfigBundle::AddContact {
        eid: "dtn://a/".into(),
        reliability: None,
        cla_address: "tcpspp:".into(),
        reaches_eid: Vec::new(),
        contacts: vec![Contact {
            start: 946684800,
            end: 946684810,
            data_rate: ContactDataRate::Unlimited,
        }],
    };
    // A contact starting exactly at the DTN epoch renders as 0, and the
    // unlimited rate renders as its magic literal.
    assert_eq!(
        config.to_string(),
        "1(dtn://a/):(tcpspp:)::[{0,10,4294967200}];"
    );
}

#[test]
fn serialize_replace_without_cla() {
    let config = ConfigBundle::ReplaceContact {
        eid: "dtn://b/".into(),
        reliability: Some(100),
        cla_address: None,
        reaches_eid: Vec::new(),
        contacts: Vec::new(),
    };
    // The CLA section collapses to a lone colon when absent.
    assert_eq!(config.to_string(), "2(dtn://b/),100::;");
}

#[test]
fn config_to_bytes_is_utf8_of_to_string() {
    let config = ConfigBundle::DeleteContact("dtn://ud3tn2.dtn/".into());
    assert_eq!(config.to_bytes(), config.to_string().into_bytes());
}

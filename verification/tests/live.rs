use data_importer::bridge::Source;
use data_importer::viewer::{Connection, ErrorKind, Preset, Theme, ZmqConfig};

#[test]
fn envelopes_name_their_sources() {
    assert_eq!(Source::from_envelope("/RIG/InfoPlusDASInterface4"), Some(Source::DAS));
    assert_eq!(Source::from_envelope("/RIG/InfoPlusDVSInterface4"), Some(Source::DVS));
    assert_eq!(Source::from_envelope("/RIG/InfoPlusRITInterface5"), Some(Source::RIT));
    assert_eq!(Source::from_envelope("/RIG/NStreinpositiesInterface5"), Some(Source::POS));
    assert_eq!(Source::from_envelope("/RIG/InfoPlusDASInterface5"), None);
    assert_eq!(Source::from_envelope(""), None);
    assert_eq!(Source::from_envelope("DAS"), None);
    for source in [Source::DVS, Source::DAS, Source::RIT, Source::POS] {
        assert_eq!(Source::from_envelope(source.as_envelope()), Some(source));
    }
    assert_eq!(Source::DAS.as_envelope(), "/RIG/InfoPlusDASInterface4");
    assert_eq!(Source::POS.as_envelope(), "/RIG/NStreinpositiesInterface5");
    assert_eq!(Source::DAS.name(), "DAS");
    assert_eq!(Source::DVS.name(), "DVS");
    assert_eq!(Source::RIT.name(), "RIT");
    assert_eq!(Source::POS.name(), "POS");
}

#[test]
fn presets_name_their_servers() {
    for (preset, port) in [
        (Preset::BISON, 7658),
        (Preset::Kv78Turbo, 7817),
        (Preset::NSInfoPlus, 7664),
        (Preset::SIRI, 7666),
    ] {
        assert_eq!(
            preset.zmq_config(),
            ZmqConfig {
                host: "pubsub.besteffort.ndovloket.nl".to_string(),
                port,
                topics: vec!["/RIG/".to_string()],
            }
        );
    }
    assert_eq!(
        Preset::NSInfoPlus.zmq_config().endpoint(),
        "tcp://pubsub.besteffort.ndovloket.nl:7664"
    );
}

#[test]
fn an_endpoint_is_host_and_port() {
    let config = |host: &str, port: u16| ZmqConfig { host: host.to_string(), port, topics: vec![] };
    assert_eq!(config("localhost", 0).endpoint(), "tcp://localhost:0");
    assert_eq!(config("10.0.0.1", 65535).endpoint(), "tcp://10.0.0.1:65535");
    assert_eq!(config("", 80).endpoint(), "tcp://:80");
}

#[test]
fn a_connection_is_a_preset_or_a_host_and_a_port() {
    let connection = |preset: Option<Preset>, hostname: Option<&str>, port: Option<u16>| {
        Connection { preset, hostname: hostname.map(|h| h.to_string()), port }
    };
    let conflict = |message: &str| Err((ErrorKind::ArgumentConflict, message.to_string()));
    assert_eq!(connection(Some(Preset::SIRI), None, None).validate(), Ok(()));
    assert_eq!(connection(None, Some("h"), Some(1)).validate(), Ok(()));
    for (hostname, port) in [(Some("h"), None), (None, Some(1)), (Some("h"), Some(1))] {
        assert_eq!(
            connection(Some(Preset::BISON), hostname, port).validate(),
            conflict("--preset cannot be used with --host or --port")
        );
    }
    assert_eq!(
        connection(None, Some("h"), None).validate(),
        conflict("--host requires --port to be specified")
    );
    assert_eq!(
        connection(None, None, Some(1)).validate(),
        conflict("--port requires --host to be specified")
    );
    assert_eq!(
        connection(None, None, None).validate(),
        Err((
            ErrorKind::MissingRequiredArgument,
            "Either --preset or both --host and --port must be specified".to_string()
        ))
    );
}

#[test]
fn themes_have_their_names() {
    assert_eq!(Theme::Light.to_string(), "InspiredGitHub");
    assert_eq!(Theme::Dark.to_string(), "base16-ocean.dark");
}

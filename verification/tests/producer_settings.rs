use risotto::producer::{deadline_passed, kafka_auth, Batcher, KafkaAuth, ProducerError};
use risotto::settings::{
    get_api_config, get_bmp_config, get_kafka_config, get_state_config, host, is_kafka_enabled,
    send_to_kafka, HostAddress, SettingKey, Settings, SettingsError,
};
use risotto::statistics::{MessageKind, ProcessorStatistics};

fn no_settings() -> Settings {
    Settings {
        api_address: None,
        api_port: None,
        bmp_address: None,
        bmp_port: None,
        kafka_enable: None,
        kafka_address: None,
        kafka_port: None,
        kafka_topic: None,
        kafka_batch_max_size: None,
        kafka_batch_interval: None,
        state_enable: None,
        state_path: None,
        state_save_interval: None,
    }
}

#[test]
fn plaintext_needs_no_credentials() {
    let auth = kafka_auth(
        &"PLAINTEXT".to_string(),
        &"u".to_string(),
        &"p".to_string(),
        &"m".to_string(),
    );
    assert!(matches!(auth, Ok(KafkaAuth::PlainText)));
}

#[test]
fn sasl_keeps_credentials() {
    let auth = kafka_auth(
        &"SASL_PLAINTEXT".to_string(),
        &"risotto".to_string(),
        &"secret".to_string(),
        &"SCRAM-SHA-512".to_string(),
    );
    match auth {
        Ok(KafkaAuth::SasalPlainText(sasl)) => {
            assert_eq!(sasl.username, "risotto");
            assert_eq!(sasl.password, "secret");
            assert_eq!(sasl.mechanism, "SCRAM-SHA-512");
        }
        _ => panic!("expected SASL"),
    }
}

#[test]
fn unknown_protocol_is_refused() {
    let auth = kafka_auth(
        &"plaintext".to_string(),
        &"u".to_string(),
        &"p".to_string(),
        &"m".to_string(),
    );
    assert!(matches!(auth, Err(ProducerError::InvalidAuthProtocol)));
}

#[test]
fn deadline_is_strict() {
    assert!(!deadline_passed(1000, 2000, 1000));
    assert!(deadline_passed(1000, 2001, 1000));
    assert!(!deadline_passed(2000, 1000, 0));
    assert!(!deadline_passed(5, 5, 0));
}

#[test]
fn batch_gathers_until_full_then_carries() {
    let mut b = Batcher::new();
    b.begin();
    assert!(b.offer(vec![1, 2, 3], 5));
    assert_eq!(b.len(), 3);
    assert_eq!(b.n_messages(), 1);
    assert!(b.offer(vec![4, 5], 5));
    assert_eq!(b.len(), 5);
    assert_eq!(b.n_messages(), 2);
    assert!(!b.offer(vec![6], 5));
    assert_eq!(b.len(), 5);
    assert_eq!(b.n_messages(), 2);
    assert!(b.has_carry());
    assert_eq!(b.take(), Some(vec![1, 2, 3, 4, 5]));
    assert_eq!(b.len(), 0);
    b.begin();
    assert!(!b.has_carry());
    assert_eq!(b.n_messages(), 1);
    assert_eq!(b.take(), Some(vec![6]));
    assert_eq!(b.take(), None);
}

#[test]
fn oversized_record_is_carried_and_published_alone() {
    let mut b = Batcher::new();
    b.begin();
    assert!(!b.offer(vec![0; 10], 4));
    assert_eq!(b.take(), None);
    b.begin();
    assert_eq!(b.take(), Some(vec![0; 10]));
}

#[test]
fn counts_messages_by_kind() {
    let mut s = ProcessorStatistics::default();
    assert_eq!(s.rx_bmp_messages, 0);
    s.record(MessageKind::PeerUp);
    s.record(MessageKind::RouteMonitoring);
    s.record(MessageKind::RouteMonitoring);
    s.record(MessageKind::Initiation);
    s.record(MessageKind::RouteMirroring);
    s.record(MessageKind::PeerDown);
    s.record(MessageKind::Termination);
    s.record(MessageKind::StatsReport);
    assert_eq!(
        s,
        ProcessorStatistics {
            rx_bmp_messages: 8,
            rx_bmp_initiation: 1,
            rx_bmp_peer_up: 1,
            rx_bmp_route_monitoring: 2,
            rx_bmp_route_mirroring: 1,
            rx_bmp_peer_down: 1,
            rx_bmp_termination: 1,
            rx_bmp_stats_report: 1,
        }
    );
}

#[test]
fn counter_stays_at_its_largest() {
    let mut s = ProcessorStatistics::default();
    s.rx_bmp_messages = usize::MAX;
    s.record(MessageKind::PeerUp);
    assert_eq!(s.rx_bmp_messages, usize::MAX);
    assert_eq!(s.rx_bmp_peer_up, 1);
}

#[test]
fn host_writes_ipv4_plain_and_ipv6_in_brackets() {
    assert_eq!(host(&HostAddress::Ipv4("0.0.0.0".to_string()), 4000, false), "0.0.0.0:4000");
    assert_eq!(host(&HostAddress::Ipv6("::1".to_string()), 8080, false), "[::1]:8080");
    assert_eq!(host(&HostAddress::Name("localhost".to_string()), 9092, true), "localhost:9092");
}

#[test]
fn host_writes_any_port_in_decimal() {
    let a = HostAddress::Ipv4("10.0.0.1".to_string());
    assert_eq!(host(&a, 0, false), "10.0.0.1:0");
    assert_eq!(host(&a, 7, false), "10.0.0.1:7");
    assert_eq!(host(&a, 65535, false), "10.0.0.1:65535");
    assert_eq!(host(&a, -12, false), "10.0.0.1:-12");
    assert_eq!(host(&a, i64::MAX, false), "10.0.0.1:9223372036854775807");
    assert_eq!(host(&a, i64::MIN, false), "10.0.0.1:-9223372036854775808");
}

#[test]
fn api_config_needs_address_then_port() {
    let mut s = no_settings();
    assert_eq!(
        get_api_config(&s).err(),
        Some(SettingsError::Missing(SettingKey::ApiAddress))
    );
    s.api_address = Some(HostAddress::Ipv4("127.0.0.1".to_string()));
    assert_eq!(get_api_config(&s).err(), Some(SettingsError::Missing(SettingKey::ApiPort)));
    s.api_port = Some(3000);
    assert_eq!(get_api_config(&s).unwrap().host, "127.0.0.1:3000");
}

#[test]
fn bmp_config_accepts_host_names() {
    let mut s = no_settings();
    assert_eq!(
        get_bmp_config(&s).err(),
        Some(SettingsError::Missing(SettingKey::BmpAddress))
    );
    s.bmp_address = Some(HostAddress::Name("collector.example".to_string()));
    assert_eq!(get_bmp_config(&s).err(), Some(SettingsError::Missing(SettingKey::BmpPort)));
    s.bmp_port = Some(4000);
    assert_eq!(get_bmp_config(&s).unwrap().host, "collector.example:4000");
}

#[test]
fn kafka_config_has_defaults() {
    let mut s = no_settings();
    assert_eq!(
        get_kafka_config(&s).err(),
        Some(SettingsError::Missing(SettingKey::KafkaAddress))
    );
    s.kafka_address = Some(HostAddress::Name("broker".to_string()));
    assert_eq!(
        get_kafka_config(&s).err(),
        Some(SettingsError::Missing(SettingKey::KafkaPort))
    );
    s.kafka_port = Some(9092);
    assert_eq!(
        get_kafka_config(&s).err(),
        Some(SettingsError::Missing(SettingKey::KafkaTopic))
    );
    s.kafka_topic = Some("risotto-updates".to_string());
    let c = get_kafka_config(&s).unwrap();
    assert_eq!(c.host, "broker:9092");
    assert_eq!(c.topic, "risotto-updates");
    assert_eq!(c.batch_max_size, 100);
    assert_eq!(c.batch_interval, 1);
    s.kafka_batch_max_size = Some(500);
    s.kafka_batch_interval = Some(-1);
    let c = get_kafka_config(&s).unwrap();
    assert_eq!(c.batch_max_size, 500);
    assert_eq!(c.batch_interval, u64::MAX);
}

#[test]
fn state_config_needs_all_three() {
    let mut s = no_settings();
    assert_eq!(
        get_state_config(&s).err(),
        Some(SettingsError::Missing(SettingKey::StateEnable))
    );
    s.state_enable = Some(true);
    assert_eq!(
        get_state_config(&s).err(),
        Some(SettingsError::Missing(SettingKey::StatePath))
    );
    s.state_path = Some("state.bin".to_string());
    assert_eq!(
        get_state_config(&s).err(),
        Some(SettingsError::Missing(SettingKey::StateSaveInterval))
    );
    s.state_save_interval = Some(10);
    let c = get_state_config(&s).unwrap();
    assert!(c.enable);
    assert_eq!(c.path, "state.bin");
    assert_eq!(c.interval, 10);
}

#[test]
fn nothing_is_sent_while_publishing_is_off() {
    let mut s = no_settings();
    assert!(!is_kafka_enabled(&s));
    assert!(matches!(send_to_kafka(&s, &[1, 2, 3]), Ok(None)));
    s.kafka_enable = Some(false);
    assert!(matches!(send_to_kafka(&s, &[1, 2, 3]), Ok(None)));
}

#[test]
fn one_message_is_sent_to_the_one_broker() {
    let mut s = no_settings();
    s.kafka_enable = Some(true);
    assert_eq!(
        send_to_kafka(&s, &[1]).err(),
        Some(SettingsError::Missing(SettingKey::KafkaAddress))
    );
    s.kafka_address = Some(HostAddress::Ipv6("2001:db8::1".to_string()));
    s.kafka_port = Some(9092);
    s.kafka_topic = Some("bgp".to_string());
    let request = send_to_kafka(&s, &[1, 2, 3]).unwrap().unwrap();
    assert_eq!(request.brokers, vec!["[2001:db8::1]:9092".to_string()]);
    assert_eq!(request.topic, "bgp");
    assert_eq!(request.payload, vec![1, 2, 3]);
}

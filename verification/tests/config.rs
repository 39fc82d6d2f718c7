use postcrate_core::config::{ready_lines, BindHost, CoreConfig, Platform};
use postcrate_core::error::Error;

#[test]
fn the_environment_is_told_when_ready() {
    assert_eq!(
        ready_lines(BindHost::Loopback, 1025, 1080, "/tmp/x"),
        vec![
            "POSTCRATE_SMTP_HOST=127.0.0.1",
            "POSTCRATE_SMTP_PORT=1025",
            "POSTCRATE_API_URL=http://127.0.0.1:1080",
            "POSTCRATE_DATA_DIR=/tmp/x"
        ]
    );
    assert_eq!(BindHost::from_address("0.0.0.0"), BindHost::AllInterfaces);
    assert_eq!(BindHost::from_address("localhost"), BindHost::Loopback);
    assert_eq!(BindHost::AllInterfaces.as_str(), "0.0.0.0");
}

#[test]
fn defaults_for_a_data_dir() {
    let c = CoreConfig::for_data_dir("/tmp/p".to_string()).unwrap();
    assert_eq!(c.data_dir, "/tmp/p");
    assert_eq!(c.db_path, "/tmp/p/postcrate.sqlite");
    assert_eq!(c.blobs_dir, "/tmp/p/blobs");
    assert_eq!(c.raw_dir(), "/tmp/p/blobs/raw");
    assert_eq!(c.incoming_dir(), "/tmp/p/blobs/raw/incoming");
    assert_eq!(c.att_dir(), "/tmp/p/blobs/att");
    assert_eq!(
        c.ensure_dirs(),
        vec![
            "/tmp/p",
            "/tmp/p/blobs",
            "/tmp/p/blobs/raw",
            "/tmp/p/blobs/raw/incoming",
            "/tmp/p/blobs/att"
        ]
    );
    assert_eq!((c.default_smtp_port, c.http_port), (1025, 1080));
    assert_eq!(c.ephemeral_port_range, (1100, 1199));
    assert_eq!(c.max_message_bytes, 52_428_800);
    assert_eq!(c.data_spill_bytes, 262_144);
    assert_eq!(c.smtp_max_line_bytes, 1000);
    assert_eq!(c.ingest_channel_capacity, 1024);
    assert_eq!(c.ehlo_hostname, "postcrate.local");
    assert_eq!(c.bind_host, BindHost::Loopback);
}

#[test]
fn a_trailing_separator_is_not_doubled() {
    let c = CoreConfig::for_data_dir("/tmp/p/".to_string()).unwrap();
    assert_eq!(c.blobs_dir, "/tmp/p/blobs");
}

#[test]
fn addresses_of_the_hosts() {
    assert_eq!(BindHost::Loopback.as_ip(), [127, 0, 0, 1]);
    assert_eq!(BindHost::AllInterfaces.as_ip(), [0, 0, 0, 0]);
}

#[test]
fn default_data_dirs() {
    let d = CoreConfig::default_data_dir;
    assert_eq!(
        d(Platform::MacOs, Some("/h"), Some("/x"), None).unwrap(),
        "/h/Library/Application Support/Postcrate"
    );
    assert_eq!(d(Platform::Linux, Some("/h"), Some("/x"), None).unwrap(), "/x/postcrate");
    assert_eq!(
        d(Platform::Linux, Some("/h"), None, Some("/a")).unwrap(),
        "/h/.local/share/postcrate"
    );
    assert_eq!(d(Platform::Other, Some("/h"), None, Some("/a")).unwrap(), "/h/.postcrate");
    assert_eq!(d(Platform::Other, None, None, Some("/a")).unwrap(), "/a/Postcrate");
    match d(Platform::Linux, None, Some("/x"), None) {
        Err(Error::Internal(m)) => assert_eq!(
            m,
            "could not resolve a default data directory; pass one explicitly"
        ),
        other => panic!("got {:?}", other),
    }
}

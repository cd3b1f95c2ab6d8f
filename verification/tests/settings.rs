use refraction::capture::{ConnectMethod, IMAPServer};
use refraction::config::{feed_file_path, feed_title_for, Config, FeedConfig, IMAP};

fn server(id: &str) -> IMAPServer {
    IMAPServer {
        id: id.to_string(),
        domain: "imap.example.com".to_string(),
        port: 993,
        username: "me@example.com".to_string(),
        method: ConnectMethod::TLS,
    }
}

#[test]
fn feeds_are_stored_under_dumped() {
    assert_eq!(feed_file_path("pragmatic"), "./dumped/pragmatic.xml");
    assert_eq!(feed_file_path(""), "./dumped/.xml");
}

#[test]
fn feed_titles_quote_the_address() {
    assert_eq!(feed_title_for("pragmaticengineer@substack.com"), "Feed for 'pragmaticengineer@substack.com'");
}

#[test]
fn password_variables_are_upper_case_ids() {
    assert_eq!(server("gmail").password_variable(), "GMAIL_PASSWORD");
    assert_eq!(server("Work-Mail_2").password_variable(), "WORK-MAIL_2_PASSWORD");
    assert_eq!(server("caf\u{e9}").password_variable(), "CAF\u{e9}_PASSWORD");
    assert_eq!(server("").password_variable(), "_PASSWORD");
}

#[test]
fn meli_settings_name_host_user_password_and_port() {
    let s = server("gmail").meli_settings("secret");
    let pairs: Vec<(&str, &str)> = s.iter().map(|(k, v)| (k.as_str(), v.as_str())).collect();
    assert_eq!(
        pairs,
        vec![
            ("server_hostname", "imap.example.com"),
            ("server_username", "me@example.com"),
            ("server_password", "secret"),
            ("server_port", "993"),
        ]
    );
}

#[test]
fn settings_hold_what_they_are_given() {
    let c = Config {
        sources: Some(vec![IMAP { id: "m".to_string(), domain: "d".to_string(), port: 143, username: "u".to_string() }]),
        feeds: Some(vec![FeedConfig { id: "f".to_string(), title: "t".to_string(), email: "e".to_string() }]),
    };
    assert_eq!(c.sources.unwrap()[0].port, 143);
    assert_eq!(c.feeds.unwrap()[0].email, "e");
    assert_eq!(ConnectMethod::STARTTLS, ConnectMethod::STARTTLS);
    assert_ne!(ConnectMethod::STARTTLS, ConnectMethod::TLS);
}

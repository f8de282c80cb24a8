use avh_portal::errors::{Feed, Field, NoneOptionError, Part, PortalError};

#[test]
fn field_keys_are_the_feed_member_names() {
    assert_eq!(Field::Datensatz.key(), "DATENSATZ");
    assert_eq!(Field::Amt.key(), "AMT");
    assert_eq!(Field::Email.key(), "E-MAIL");
    assert_eq!(Field::Vorname.key(), "VORNAME-PRIVATPERSON");
    assert_eq!(Field::Nachname.key(), "NACHNAME-PRIVATPERSON");
    assert_eq!(Field::Biername.key(), "BIERNAME");
    assert_eq!(Field::Neuwahl.key(), "NEUWAHL");
    assert_eq!(Field::Jahr.key(), "JAHR");
}

#[test]
fn names_of_feeds_and_parts() {
    assert_eq!(Feed::Primary.name(), "primary");
    assert_eq!(Feed::Secondary.name(), "secondary");
    assert_eq!(Part::Json.name(), "payload");
    assert_eq!(Part::Document.name(), "document");
    assert_eq!(Part::Record.name(), "record");
    assert_eq!(Part::Field(Field::Jahr).name(), "JAHR");
}

#[test]
fn none_option_error_message() {
    let e = NoneOptionError { feed: Feed::Primary, part: Part::Field(Field::Amt) };
    assert_eq!(e.message(), "Option::None was assumed to be something");
    assert_eq!(e.describe(), "primary feed, AMT: Option::None was assumed to be something");
    let e = NoneOptionError { feed: Feed::Secondary, part: Part::Json };
    assert_eq!(e.describe(), "secondary feed, payload: Option::None was assumed to be something");
}

#[test]
fn describe_names_the_kind_and_the_detail() {
    assert_eq!(PortalError::Config("SEWOBEUSER".to_string()).describe(), "configuration: SEWOBEUSER");
    assert_eq!(PortalError::Network("timeout".to_string()).describe(), "network: timeout");
    assert_eq!(
        PortalError::RemoteResponse("bad body".to_string()).describe(),
        "remote response: bad body"
    );
    assert_eq!(PortalError::Io("denied".to_string()).describe(), "file: denied");
    assert_eq!(PortalError::NotFound("./tmp/x".to_string()).describe(), "file not found: ./tmp/x");
    assert_eq!(
        PortalError::MalformedFeed(NoneOptionError { feed: Feed::Primary, part: Part::Record })
            .describe(),
        "malformed feed: primary feed, record: Option::None was assumed to be something"
    );
}

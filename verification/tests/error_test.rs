use unterflow_protocol::error::EnumKind;
use unterflow_protocol::error::Error;
use unterflow_protocol::error::SbeError;
use unterflow_protocol::sbe::MessageHeader;

#[test]
fn sbe_error_as_str() {
    assert_eq!("not enough bytes", SbeError::NotEnoughBytes.as_str());
    assert_eq!(
        "slice is longer then allowed by schema",
        SbeError::SliceIsLongerThanAllowedBySchema.as_str()
    );
}

#[test]
fn error_description() {
    assert_eq!(
        "broken",
        Error::DecodeError("broken".to_string()).description()
    );
    assert_eq!(
        "too much",
        Error::EncodeError("too much".to_string()).description()
    );
    assert_eq!(
        "not enough bytes",
        Error::SbeError(SbeError::NotEnoughBytes).description()
    );
    assert_eq!(
        "slice is longer then allowed by schema",
        Error::SbeError(SbeError::SliceIsLongerThanAllowedBySchema).description()
    );
    assert_eq!(
        "unknown enum value",
        Error::UnknownEnum(EnumKind::EventType, 12).description()
    );
    assert_eq!(
        "unsupported message",
        Error::UnsupportedMessage(MessageHeader {
            block_length: 1,
            template_id: 2,
            schema_id: 3,
            version: 4,
        })
        .description()
    );
    assert_eq!("invalid utf-8", Error::InvalidUtf8.description());
    assert_eq!(
        "GONE",
        Error::UnknownState("GONE".to_string()).description()
    );
}

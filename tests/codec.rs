use forum_sync::codec::{encode_report_origin, parse_message_url_from_issue_update, ParsedMessageURL, ReferenceError};

fn decoded(d: &str) -> ParsedMessageURL {
    match parse_message_url_from_issue_update(d) {
        Ok(p) => p,
        Err(e) => panic!("unexpected error: {:?}", e),
    }
}

fn malformed_token(d: &str) -> String {
    match parse_message_url_from_issue_update(d) {
        Err(ReferenceError::MalformedReference { token }) => token,
        other => panic!("expected a malformed reference, got {:?}", other),
    }
}

#[test]
fn encode_writes_the_literal_shape() {
    assert_eq!(
        encode_report_origin(123456789, 987654321, 555),
        "Report Origin: https://chat.example/channels/123456789/987654321/555"
    );
    assert_eq!(encode_report_origin(0, 0, 0), "Report Origin: https://chat.example/channels/0/0/0");
}

#[test]
fn encode_handles_the_largest_identifiers() {
    let m = u64::MAX;
    let text = encode_report_origin(m, m, m);
    assert_eq!(
        text,
        "Report Origin: https://chat.example/channels/18446744073709551615/18446744073709551615/18446744073709551615"
    );
    assert_eq!(decoded(&text), ParsedMessageURL { server_id: m, channel_id: m, message_id: m });
}

#[test]
fn round_trip_on_several_triples() {
    let triples = [(1u64, 2u64, 3u64), (0, 42, 7), (10, 100, 1000), (u64::MAX, 1, 0)];
    for (s, c, m) in triples {
        let text = encode_report_origin(s, c, m);
        assert_eq!(decoded(&text), ParsedMessageURL { server_id: s, channel_id: c, message_id: m });
        let description = format!("{}\n\nThe game crashes (again) on start.", text);
        assert_eq!(decoded(&description), ParsedMessageURL { server_id: s, channel_id: c, message_id: m });
    }
}

#[test]
fn decode_without_marker_is_not_found() {
    assert!(matches!(
        parse_message_url_from_issue_update("An issue filed by hand."),
        Err(ReferenceError::ReferenceNotFound)
    ));
    assert!(matches!(parse_message_url_from_issue_update(""), Err(ReferenceError::ReferenceNotFound)));
    assert!(matches!(
        parse_message_url_from_issue_update("Report Origin https://chat.example/channels/1/2/3"),
        Err(ReferenceError::ReferenceNotFound)
    ));
}

#[test]
fn decode_with_too_few_pieces_is_malformed() {
    assert_eq!(malformed_token("Report Origin: https://chat.example/channels/1/2"), "https://chat.example/channels/1/2");
    assert_eq!(malformed_token("Report Origin: "), "");
}

#[test]
fn decode_names_the_offending_token() {
    assert_eq!(malformed_token("Report Origin: https://chat.example/channels/1/x2/3"), "x2");
    assert_eq!(malformed_token("Report Origin: https://chat.example/channels/1/2/"), "");
    assert_eq!(malformed_token("Report Origin: https://chat.example/channels/18446744073709551616/2/3"), "18446744073709551616");
    assert_eq!(malformed_token("Report Origin: https://chat.example/channels/-1/2/3"), "-1");
}

#[test]
fn decode_accepts_the_link_wrapped_form() {
    let d = "See [link](Report Origin: https://chat.example/channels/11/22/33) for details";
    assert_eq!(decoded(d), ParsedMessageURL { server_id: 11, channel_id: 22, message_id: 33 });
}

#[test]
fn decode_reads_the_first_marker() {
    let d = "Report Origin: https://chat.example/channels/1/2/3\n\nReport Origin: https://chat.example/channels/4/5/6";
    assert_eq!(decoded(d), ParsedMessageURL { server_id: 1, channel_id: 2, message_id: 3 });
}

#[test]
fn decode_ignores_pieces_after_the_message() {
    let d = "Report Origin: https://chat.example/channels/1/2/3/extra";
    assert_eq!(decoded(d), ParsedMessageURL { server_id: 1, channel_id: 2, message_id: 3 });
}

#[test]
fn decode_accepts_one_plus_sign() {
    let d = "Report Origin: https://chat.example/channels/+1/2/+3";
    assert_eq!(decoded(d), ParsedMessageURL { server_id: 1, channel_id: 2, message_id: 3 });
    assert_eq!(malformed_token("Report Origin: https://chat.example/channels/++1/2/3"), "++1");
    assert_eq!(malformed_token("Report Origin: https://chat.example/channels/1/+/3"), "+");
}

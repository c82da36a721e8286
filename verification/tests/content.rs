use inscriptions::content::{
    classify_bytes, classify_text, parse_data, same_bytes, tag_mentions_html, ImageProbe,
    JsonDocument, ParsedData,
};

const PNG: [u8; 67] = [
    0x89, 0x50, 0x4e, 0x47, 0x0d, 0x0a, 0x1a, 0x0a, 0x00, 0x00, 0x00, 0x0d, 0x49, 0x48, 0x44, 0x52,
    0x00, 0x00, 0x00, 0x01, 0x00, 0x00, 0x00, 0x01, 0x08, 0x00, 0x00, 0x00, 0x00, 0x3a, 0x7e, 0x9b,
    0x55, 0x00, 0x00, 0x00, 0x0a, 0x49, 0x44, 0x41, 0x54, 0x78, 0x9c, 0x63, 0xa8, 0x07, 0x00, 0x00,
    0x81, 0x00, 0x80, 0xd3, 0x94, 0x53, 0x4a, 0x00, 0x00, 0x00, 0x00, 0x49, 0x45, 0x4e, 0x44, 0xae,
    0x42, 0x60, 0x82,
];

fn decoded(payloads: &[&[u8]]) -> ImageProbe {
    let mut probe = ImageProbe::new();
    for payload in payloads {
        if image::load_from_memory(payload).is_ok() {
            probe.note(payload.to_vec());
        }
    }
    probe
}

fn probe() -> ImageProbe {
    decoded(&[&PNG, &PNG[..20], &[0xff, 0x00, 0xfe], &[0xff, 0xfe], &[0xc3], &[0x80]])
}

fn json(text: &str, protocol: Option<&str>) -> ParsedData {
    ParsedData::Json(JsonDocument { text: text.to_string(), protocol: protocol.map(|p| p.to_string()) })
}

#[test]
fn plain_text_is_text() {
    assert_eq!(parse_data(b"hello world", "text/plain", &probe()), ParsedData::Text("hello world".to_string()));
}

#[test]
fn text_under_an_html_tag_is_html() {
    assert_eq!(parse_data(b"hello world", "text/html", &probe()), ParsedData::Html("hello world".to_string()));
}

#[test]
fn html_tag_is_found_in_any_case_and_place() {
    assert!(tag_mentions_html("text/html"));
    assert!(tag_mentions_html("TEXT/HTML;charset=utf-8"));
    assert!(tag_mentions_html("application/xHtMl+xml"));
    assert!(tag_mentions_html("html"));
    assert!(!tag_mentions_html("text/plain"));
    assert!(!tag_mentions_html("htm"));
    assert!(!tag_mentions_html("h t m l"));
    assert!(!tag_mentions_html(""));
    assert_eq!(
        tag_mentions_html("Text/HTML"),
        "Text/HTML".to_lowercase().contains("html")
    );
}

#[test]
fn html_tag_is_found_as_in_its_lowercase_form() {
    let tags = [
        "text/html",
        "TEXT/HTML",
        "tExT/hTmL; charset=UTF-8",
        "ＨＴＭＬ",
        "ʜᴛᴍʟ",
        "hİtml",
        "İhtml",
        "HTMLİ",
        "h\u{212a}tml",
        "straße/HTML",
        "ΣΑΣ html",
        "htm\u{0}l",
        "",
    ];
    for tag in tags {
        assert_eq!(tag_mentions_html(tag), tag.to_lowercase().contains("html"));
    }
}

#[test]
fn html_tag_beats_json() {
    assert_eq!(parse_data(b"{\"a\":1}", "text/html", &probe()), ParsedData::Html("{\"a\":1}".to_string()));
}

#[test]
fn brc20_json_is_json_and_brc20() {
    let payload = b"{\"p\":\"brc-20\",\"op\":\"deploy\"}";
    let parsed = parse_data(payload, "application/json", &probe());
    assert_eq!(parsed, json("{\"p\":\"brc-20\",\"op\":\"deploy\"}", Some("brc-20")));
    assert!(parsed.is_json());
    assert!(parsed.is_text());
    assert!(parsed.is_brc20());
    assert!(!parsed.is_html());
    assert!(!parsed.is_image());
}

#[test]
fn json_is_found_whatever_the_tag() {
    assert_eq!(parse_data(b"[1,2]", "text/plain", &probe()), json("[1,2]", None));
    assert_eq!(parse_data(b"[1,2]", "", &probe()), json("[1,2]", None));
}

#[test]
fn json_of_another_protocol_is_not_brc20() {
    let parsed = parse_data(b"{\"p\":\"sns\"}", "application/json", &probe());
    assert_eq!(parsed, json("{\"p\":\"sns\"}", Some("sns")));
    assert!(parsed.is_json());
    assert!(!parsed.is_brc20());
}

#[test]
fn json_without_the_member_is_not_brc20() {
    let parsed = parse_data(b"{\"op\":\"deploy\"}", "application/json", &probe());
    assert_eq!(parsed, json("{\"op\":\"deploy\"}", None));
    assert!(!parsed.is_brc20());
}

#[test]
fn json_whose_member_is_no_string_is_not_brc20() {
    let parsed = parse_data(b"{\"p\":20}", "application/json", &probe());
    assert_eq!(parsed, json("{\"p\":20}", None));
    assert!(!parsed.is_brc20());
}

#[test]
fn json_array_and_scalars_are_not_brc20() {
    for text in ["[\"brc-20\"]", "\"brc-20\"", "20", "null", "true"] {
        let parsed = parse_data(text.as_bytes(), "application/json", &probe());
        assert_eq!(parsed, json(text, None));
        assert!(parsed.is_json());
        assert!(!parsed.is_brc20());
    }
}

#[test]
fn nested_member_does_not_count() {
    let parsed = parse_data(b"{\"a\":{\"p\":\"brc-20\"}}", "application/json", &probe());
    assert!(parsed.is_json());
    assert!(!parsed.is_brc20());
}

#[test]
fn other_classifications_are_not_brc20() {
    assert!(!ParsedData::Binary.is_brc20());
    assert!(!ParsedData::Image.is_brc20());
    assert!(!ParsedData::Text("brc-20".to_string()).is_brc20());
    assert!(!ParsedData::Html("{\"p\":\"brc-20\"}".to_string()).is_brc20());
}

#[test]
fn broken_json_is_text() {
    assert_eq!(
        parse_data(b"{\"p\":\"brc-20\"", "application/json", &probe()),
        ParsedData::Text("{\"p\":\"brc-20\"".to_string())
    );
}

#[test]
fn empty_payload_is_text() {
    assert_eq!(parse_data(b"", "text/plain", &probe()), ParsedData::Text(String::new()));
}

#[test]
fn text_that_is_not_ascii_is_text() {
    assert_eq!(parse_data("héllo ✓".as_bytes(), "text/plain", &probe()), ParsedData::Text("héllo ✓".to_string()));
}

#[test]
fn png_is_an_image() {
    let parsed = parse_data(&PNG, "image/png", &probe());
    assert_eq!(parsed, ParsedData::Image);
    assert!(parsed.is_image());
    assert!(!parsed.is_text());
}

#[test]
fn image_is_found_whatever_the_tag() {
    assert_eq!(parse_data(&PNG, "text/html", &probe()), ParsedData::Image);
    assert_eq!(parse_data(&PNG, "", &probe()), ParsedData::Image);
}

#[test]
fn bytes_that_are_neither_text_nor_image_are_binary() {
    let parsed = parse_data(&[0xff, 0x00, 0xfe], "application/octet-stream", &probe());
    assert_eq!(parsed, ParsedData::Binary);
    assert!(!parsed.is_text());
    assert!(!parsed.is_image());
    assert!(!parsed.is_json());
    assert!(!parsed.is_html());
}

#[test]
fn truncated_png_is_binary() {
    assert_eq!(parse_data(&PNG[..20], "image/png", &probe()), ParsedData::Binary);
}

#[test]
fn decoder_takes_the_png_and_nothing_else() {
    assert_eq!(probe(), ImageProbe { images: vec![PNG.to_vec()] });
}

#[test]
fn image_is_what_the_probe_holds() {
    assert_eq!(parse_data(&PNG, "image/png", &ImageProbe::new()), ParsedData::Binary);
    let mut noted = ImageProbe::new();
    noted.note(vec![0xff, 0x01]);
    assert_eq!(parse_data(&[0xff, 0x01], "", &noted), ParsedData::Image);
    assert_eq!(parse_data(&[0xff, 0x02], "", &noted), ParsedData::Binary);
    assert_eq!(parse_data(&[0xff], "", &noted), ParsedData::Binary);
}

#[test]
fn probe_has_no_say_on_text() {
    let mut noted = ImageProbe::new();
    noted.note(b"hello".to_vec());
    noted.note(b"{}".to_vec());
    assert_eq!(parse_data(b"hello", "text/plain", &noted), ParsedData::Text("hello".to_string()));
    assert_eq!(parse_data(b"hello", "text/html", &noted), ParsedData::Html("hello".to_string()));
    assert_eq!(parse_data(b"{}", "", &noted), json("{}", None));
}

#[test]
fn probe_holds_what_was_noted() {
    let mut noted = ImageProbe::new();
    assert!(!noted.holds(&[]));
    assert!(!noted.holds(&[1, 2]));
    noted.note(vec![1, 2]);
    noted.note(vec![]);
    assert!(noted.holds(&[1, 2]));
    assert!(noted.holds(&[]));
    assert!(!noted.holds(&[1]));
    assert!(!noted.holds(&[1, 2, 3]));
    assert!(!noted.holds(&[2, 1]));
    assert_eq!(noted.images, vec![vec![1, 2], vec![]]);
}

#[test]
fn same_bytes_compares_length_and_every_byte() {
    assert!(same_bytes(&[], &[]));
    assert!(same_bytes(&[1, 2, 3], &[1, 2, 3]));
    assert!(!same_bytes(&[1, 2, 3], &[1, 2]));
    assert!(!same_bytes(&[1, 2], &[1, 2, 3]));
    assert!(!same_bytes(&[1, 2, 3], &[1, 2, 4]));
    assert!(!same_bytes(&[0, 2, 3], &[1, 2, 3]));
}

#[test]
fn classification_repeats() {
    for (payload, tag) in [(&b"hello"[..], "text/plain"), (&PNG[..], "image/png"), (&b"{}"[..], "x"), (&[0x80u8][..], "")] {
        assert_eq!(parse_data(payload, tag, &probe()), parse_data(payload, tag, &probe()));
    }
}

#[test]
fn every_payload_has_exactly_one_classification() {
    let payloads: [&[u8]; 7] =
        [b"", b"hello", b"{\"p\":\"brc-20\"}", b"[1]", &PNG, &[0xff, 0xfe], &[0xc3]];
    for payload in payloads {
        for tag in ["", "text/plain", "text/html", "application/json", "image/png"] {
            let parsed = parse_data(payload, tag, &probe());
            let kinds = [
                parsed.is_image(),
                parsed.is_html(),
                parsed.is_json(),
                matches!(parsed, ParsedData::Text(_)),
                matches!(parsed, ParsedData::Binary),
            ];
            assert_eq!(kinds.iter().filter(|kind| **kind).count(), 1);
            assert_eq!(parsed.is_text(), std::str::from_utf8(payload).is_ok());
        }
    }
}

#[test]
fn is_text_holds_of_the_three_kinds_of_text() {
    assert!(ParsedData::Text(String::new()).is_text());
    assert!(ParsedData::Html(String::new()).is_text());
    assert!(json("{}", None).is_text());
    assert!(!ParsedData::Binary.is_text());
    assert!(!ParsedData::Image.is_text());
}

#[test]
fn classify_text_goes_by_the_parser() {
    assert_eq!(classify_text("x".to_string(), None), ParsedData::Text("x".to_string()));
    assert_eq!(classify_text("1".to_string(), Some(None)), json("1", None));
    assert_eq!(
        classify_text("{}".to_string(), Some(Some("brc-20".to_string()))),
        json("{}", Some("brc-20"))
    );
}

#[test]
fn classify_bytes_goes_by_the_decoder() {
    assert_eq!(classify_bytes(true), ParsedData::Image);
    assert_eq!(classify_bytes(false), ParsedData::Binary);
}

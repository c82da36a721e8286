use inscriptions::content::{ImageProbe, JsonDocument, ParsedData};
use inscriptions::error::ExtractError;
use inscriptions::id::{InscriptionId, Txid};
use inscriptions::envelope::RawEnvelope;
use inscriptions::inscription::{
    assemble, extension_for, tapscript, unread_payloads, Inscription, Transaction, TxIn,
};
use std::sync::Arc;

const PNG: [u8; 67] = [
    0x89, 0x50, 0x4e, 0x47, 0x0d, 0x0a, 0x1a, 0x0a, 0x00, 0x00, 0x00, 0x0d, 0x49, 0x48, 0x44, 0x52,
    0x00, 0x00, 0x00, 0x01, 0x00, 0x00, 0x00, 0x01, 0x08, 0x00, 0x00, 0x00, 0x00, 0x3a, 0x7e, 0x9b,
    0x55, 0x00, 0x00, 0x00, 0x0a, 0x49, 0x44, 0x41, 0x54, 0x78, 0x9c, 0x63, 0xa8, 0x07, 0x00, 0x00,
    0x81, 0x00, 0x80, 0xd3, 0x94, 0x53, 0x4a, 0x00, 0x00, 0x00, 0x00, 0x49, 0x45, 0x4e, 0x44, 0xae,
    0x42, 0x60, 0x82,
];

fn probe() -> ImageProbe {
    let mut probe = ImageProbe::new();
    if image::load_from_memory(&PNG).is_ok() {
        probe.note(PNG.to_vec());
    }
    probe
}

fn txid() -> Txid {
    let mut bytes = [0u8; 32];
    bytes[31] = 0xab;
    Txid(bytes)
}

fn envelope_script(tag: &[u8], payload: &[u8]) -> Vec<u8> {
    let mut script = vec![0x00, 0x63, 0x03, b'o', b'r', b'd', 0x01, 0x01];
    script.push(tag.len() as u8);
    script.extend_from_slice(tag);
    script.push(0x00);
    script.push(0x4c);
    script.push(payload.len() as u8);
    script.extend_from_slice(payload);
    script.push(0x68);
    script
}

fn script_spend(script: Vec<u8>) -> TxIn {
    TxIn { witness: vec![vec![1; 64], script, vec![0xc0; 33]] }
}

fn record_of(
    input: usize,
    index: usize,
    mime: &str,
    data: &[u8],
    parsed: ParsedData,
) -> Arc<Inscription> {
    Arc::new(Inscription {
        txid: txid(),
        input,
        index,
        mime: mime.to_string(),
        data: data.to_vec(),
        parsed,
    })
}

fn record(index: usize, mime: &str, data: &[u8], parsed: ParsedData) -> Arc<Inscription> {
    record_of(0, index, mime, data, parsed)
}

fn with_content(data: &[u8], parsed: ParsedData) -> Inscription {
    Inscription { txid: txid(), input: 1, index: 3, mime: String::new(), data: data.to_vec(), parsed }
}

#[test]
fn tapscript_of_short_stacks_is_none() {
    assert_eq!(tapscript(&vec![]), None);
    assert_eq!(tapscript(&vec![vec![1, 2]]), None);
    assert_eq!(tapscript(&vec![vec![1, 2], vec![0x50, 1]]), None);
}

#[test]
fn tapscript_is_second_to_last_without_annex() {
    let stack = vec![vec![1], vec![2], vec![3]];
    assert_eq!(tapscript(&stack), Some(&vec![2]));
    let stack = vec![vec![2], vec![3]];
    assert_eq!(tapscript(&stack), Some(&vec![2]));
    let stack = vec![vec![1], vec![2], vec![]];
    assert_eq!(tapscript(&stack), Some(&vec![2]));
}

#[test]
fn tapscript_is_third_to_last_with_annex() {
    let stack = vec![vec![1], vec![2], vec![3], vec![0x50]];
    assert_eq!(tapscript(&stack), Some(&vec![2]));
    let stack = vec![vec![1], vec![2], vec![0x50, 9]];
    assert_eq!(tapscript(&stack), Some(&vec![1]));
}

#[test]
#[allow(deprecated)]
fn tapscript_is_what_bitcoin_picks() {
    let stacks: Vec<Vec<Vec<u8>>> = vec![
        vec![],
        vec![vec![1]],
        vec![vec![0x50]],
        vec![vec![1], vec![2]],
        vec![vec![1], vec![0x50]],
        vec![vec![1], vec![]],
        vec![vec![1], vec![2], vec![3]],
        vec![vec![1], vec![2], vec![0x50, 7]],
        vec![vec![1], vec![2], vec![0x51]],
        vec![vec![1], vec![2], vec![3], vec![0x50]],
        vec![vec![], vec![], vec![], vec![]],
    ];
    for stack in stacks {
        let theirs = bitcoin::Witness::from_slice(&stack);
        assert_eq!(
            tapscript(&stack).map(|s| s.as_slice()),
            theirs.tapscript().map(|s| s.as_bytes())
        );
    }
}

#[test]
fn extract_witness_of_a_missing_input_fails() {
    let tx = Transaction { txid: txid(), input: vec![] };
    assert_eq!(Inscription::extract_witness(&tx, 0, &probe()), Err(ExtractError::InputNotFound));
    let tx = Transaction { txid: txid(), input: vec![script_spend(vec![])] };
    assert_eq!(Inscription::extract_witness(&tx, 1, &probe()), Err(ExtractError::InputNotFound));
    assert_eq!(Inscription::extract_witness(&tx, usize::MAX, &probe()), Err(ExtractError::InputNotFound));
}

#[test]
fn extract_witness_without_a_leaf_script_is_empty() {
    let tx = Transaction { txid: txid(), input: vec![TxIn { witness: vec![vec![1; 64]] }] };
    assert_eq!(Inscription::extract_witness(&tx, 0, &probe()), Ok(vec![]));
}

#[test]
fn extract_witness_of_a_script_that_does_not_decode_fails() {
    let tx = Transaction { txid: txid(), input: vec![script_spend(vec![0x20, 0xac])] };
    assert_eq!(Inscription::extract_witness(&tx, 0, &probe()), Err(ExtractError::MalformedScript));
}

#[test]
fn extract_witness_of_a_script_without_envelope_is_empty() {
    let tx = Transaction { txid: txid(), input: vec![script_spend(vec![0x01, 0x07, 0xac])] };
    assert_eq!(Inscription::extract_witness(&tx, 0, &probe()), Ok(vec![]));
}

#[test]
fn extract_witness_numbers_the_inscriptions_of_the_input() {
    let mut script = vec![0x01, 0x07, 0xac];
    script.extend(envelope_script(b"text/plain", b"hello world"));
    script.extend(envelope_script(b"text/html", b"<p>hi</p>"));
    script.extend(envelope_script(b"application/json", b"{\"p\":\"brc-20\"}"));
    let tx = Transaction { txid: txid(), input: vec![script_spend(script)] };
    let found = Inscription::extract_witness(&tx, 0, &probe()).unwrap();
    assert_eq!(
        found,
        vec![
            record(0, "text/plain", b"hello world", ParsedData::Text("hello world".to_string())),
            record(1, "text/html", b"<p>hi</p>", ParsedData::Html("<p>hi</p>".to_string())),
            record(
                2,
                "application/json",
                b"{\"p\":\"brc-20\"}",
                ParsedData::Json(JsonDocument {
                    text: "{\"p\":\"brc-20\"}".to_string(),
                    protocol: Some("brc-20".to_string()),
                })
            ),
        ]
    );
}

#[test]
fn extract_witness_takes_a_tag_that_is_no_utf8_as_empty() {
    let tx = Transaction {
        txid: txid(),
        input: vec![script_spend(envelope_script(&[0xff], b"<html>"))],
    };
    assert_eq!(
        Inscription::extract_witness(&tx, 0, &probe()),
        Ok(vec![record(0, "", b"<html>", ParsedData::Text("<html>".to_string()))])
    );
}

#[test]
fn extract_witness_reads_the_script_before_an_annex() {
    let script = envelope_script(b"image/png", &PNG);
    let tx = Transaction {
        txid: txid(),
        input: vec![TxIn { witness: vec![script, vec![0xc0; 33], vec![0x50, 0x00]] }],
    };
    assert_eq!(
        Inscription::extract_witness(&tx, 0, &probe()),
        Ok(vec![record(0, "image/png", &PNG, ParsedData::Image)])
    );
}

#[test]
fn extract_all_goes_input_by_input() {
    let tx = Transaction {
        txid: txid(),
        input: vec![
            script_spend(envelope_script(b"a", b"first")),
            TxIn { witness: vec![vec![1; 64]] },
            script_spend(vec![0x05, 0x01]),
            {
                let mut script = envelope_script(b"b", b"second");
                script.extend(envelope_script(b"c", b"third"));
                script_spend(script)
            },
        ],
    };
    assert_eq!(
        Inscription::extract_all(&tx, &probe()),
        vec![
            record_of(0, 0, "a", b"first", ParsedData::Text("first".to_string())),
            record_of(3, 0, "b", b"second", ParsedData::Text("second".to_string())),
            record_of(3, 1, "c", b"third", ParsedData::Text("third".to_string())),
        ]
    );
}

#[test]
fn extract_witness_of_a_later_input_names_that_input() {
    let tx = Transaction {
        txid: txid(),
        input: vec![
            script_spend(envelope_script(b"a", b"first")),
            script_spend(envelope_script(b"b", b"second")),
        ],
    };
    assert_eq!(
        Inscription::extract_witness(&tx, 1, &probe()),
        Ok(vec![record_of(1, 0, "b", b"second", ParsedData::Text("second".to_string()))])
    );
}

#[test]
fn find_by_id_gives_the_inscriptions_with_that_id() {
    let tx = Transaction {
        txid: txid(),
        input: vec![
            script_spend(envelope_script(b"a", b"first")),
            {
                let mut script = envelope_script(b"b", b"second");
                script.extend(envelope_script(b"c", b"third"));
                script_spend(script)
            },
        ],
    };
    assert_eq!(
        Inscription::find_by_id(&tx, &InscriptionId(txid(), 1), &probe()),
        vec![record_of(1, 1, "c", b"third", ParsedData::Text("third".to_string()))]
    );
    assert_eq!(
        Inscription::find_by_id(&tx, &InscriptionId(txid(), 0), &probe()),
        vec![
            record_of(0, 0, "a", b"first", ParsedData::Text("first".to_string())),
            record_of(1, 0, "b", b"second", ParsedData::Text("second".to_string())),
        ]
    );
    assert_eq!(Inscription::find_by_id(&tx, &InscriptionId(txid(), 2), &probe()), vec![]);
    assert_eq!(Inscription::find_by_id(&tx, &InscriptionId(Txid([1; 32]), 0), &probe()), vec![]);
}

#[test]
fn found_inscriptions_have_the_id_they_were_found_by() {
    let tx = Transaction {
        txid: txid(),
        input: vec![script_spend(envelope_script(b"a", b"first"))],
    };
    let id = InscriptionId(txid(), 0);
    for inscription in Inscription::find_by_id(&tx, &id, &probe()) {
        assert_eq!(inscription.inscription_id(), id.to_string());
    }
}

#[test]
fn extract_all_of_no_inputs_is_empty() {
    assert_eq!(Inscription::extract_all(&Transaction { txid: txid(), input: vec![] }, &probe()), vec![]);
}

#[test]
fn inscription_id_is_txid_i_index() {
    let inscription = with_content(b"", ParsedData::Binary);
    assert_eq!(
        inscription.inscription_id(),
        "ab00000000000000000000000000000000000000000000000000000000000000i3"
    );
}

#[test]
fn inscription_is_shown_as_its_id_in_brackets() {
    assert_eq!(
        with_content(b"", ParsedData::Binary).to_string(),
        "[Inscription ab00000000000000000000000000000000000000000000000000000000000000i3]"
    );
}

#[test]
fn unread_payloads_are_those_that_are_no_text() {
    let list = vec![
        record(0, "a", b"text", ParsedData::Text("text".to_string())),
        record(1, "b", &[0xff, 1], ParsedData::Binary),
        record(2, "c", b"<p>", ParsedData::Html("<p>".to_string())),
        record(3, "d", &PNG, ParsedData::Image),
        record(
            4,
            "e",
            b"1",
            ParsedData::Json(JsonDocument { text: "1".to_string(), protocol: None }),
        ),
        record(5, "f", &[0xff, 1], ParsedData::Binary),
    ];
    assert_eq!(unread_payloads(&list), vec![vec![0xff, 1], PNG.to_vec(), vec![0xff, 1]]);
    assert_eq!(unread_payloads(&vec![]), Vec::<Vec<u8>>::new());
}

#[test]
fn unread_payloads_are_the_same_whatever_images_are_known() {
    let mut script = envelope_script(b"image/png", &PNG);
    script.extend(envelope_script(b"text/plain", b"hello"));
    script.extend(envelope_script(b"x", &[0xff]));
    let tx = Transaction { txid: txid(), input: vec![script_spend(script)] };
    let before = unread_payloads(&Inscription::extract_all(&tx, &ImageProbe::new()));
    let after = unread_payloads(&Inscription::extract_all(&tx, &probe()));
    assert_eq!(before, vec![PNG.to_vec(), vec![0xff]]);
    assert_eq!(before, after);
}

#[test]
fn image_is_found_once_the_decoder_was_asked() {
    let tx = Transaction {
        txid: txid(),
        input: vec![script_spend(envelope_script(b"image/png", &PNG))],
    };
    assert_eq!(
        Inscription::extract_all(&tx, &ImageProbe::new()),
        vec![record(0, "image/png", &PNG, ParsedData::Binary)]
    );
    assert_eq!(
        Inscription::extract_all(&tx, &probe()),
        vec![record(0, "image/png", &PNG, ParsedData::Image)]
    );
}

#[test]
fn web_url_is_the_indexer_with_the_id() {
    assert_eq!(
        with_content(b"", ParsedData::Binary).web_url(),
        "https://ordinals.com/inscription/ab00000000000000000000000000000000000000000000000000000000000000i3"
    );
}

#[test]
fn from_envelope_classifies_the_payload_under_its_tag() {
    let envelope = RawEnvelope {
        declared_tag: Some(b"text/html".to_vec()),
        payload: b"<p>hi</p>".to_vec(),
    };
    assert_eq!(
        Inscription::from_envelope(txid(), 2, 5, &envelope, &probe()),
        Inscription {
            txid: txid(),
            input: 2,
            index: 5,
            mime: "text/html".to_string(),
            data: b"<p>hi</p>".to_vec(),
            parsed: ParsedData::Html("<p>hi</p>".to_string()),
        }
    );
    let envelope = RawEnvelope { declared_tag: None, payload: vec![0xff] };
    assert_eq!(
        Inscription::from_envelope(txid(), 0, 0, &envelope, &probe()),
        Inscription {
            txid: txid(),
            input: 0,
            index: 0,
            mime: String::new(),
            data: vec![0xff],
            parsed: ParsedData::Binary,
        }
    );
}

#[test]
fn assemble_numbers_the_envelopes() {
    let found = vec![
        RawEnvelope { declared_tag: Some(b"a".to_vec()), payload: b"x".to_vec() },
        RawEnvelope { declared_tag: Some(b"b".to_vec()), payload: b"y".to_vec() },
    ];
    assert_eq!(
        assemble(txid(), 4, &found, &probe()),
        vec![
            record_of(4, 0, "a", b"x", ParsedData::Text("x".to_string())),
            record_of(4, 1, "b", b"y", ParsedData::Text("y".to_string())),
        ]
    );
    assert_eq!(assemble(txid(), 4, &vec![], &probe()), vec![]);
}

#[test]
fn file_extension_goes_by_the_content() {
    assert_eq!(with_content(&[0xff], ParsedData::Binary).file_extension(), "dat");
    assert_eq!(with_content(b"x", ParsedData::Html("x".to_string())).file_extension(), "html");
    assert_eq!(with_content(b"x", ParsedData::Text("x".to_string())).file_extension(), "txt");
    let json = ParsedData::Json(JsonDocument { text: "1".to_string(), protocol: None });
    assert_eq!(with_content(b"1", json).file_extension(), "json");
    assert_eq!(with_content(&PNG, ParsedData::Image).file_extension(), "png");
    assert_eq!(with_content(&[0xff, 0xd8, 0xff, 0xe0], ParsedData::Image).file_extension(), "jpg");
    assert_eq!(with_content(b"GIF89a", ParsedData::Image).file_extension(), "gif");
}

#[test]
fn file_extension_of_an_image_of_unknown_format_is_dat() {
    assert_eq!(with_content(&[1, 2, 3], ParsedData::Image).file_extension(), "dat");
}

#[test]
fn file_extension_of_what_is_no_image_is_not_sniffed() {
    assert_eq!(with_content(&PNG, ParsedData::Binary).file_extension(), "dat");
}

#[test]
fn extension_for_takes_the_first_sniffed_one_for_images_only() {
    let list = || Some(vec!["jpg".to_string(), "jpeg".to_string()]);
    assert_eq!(extension_for(&ParsedData::Image, list()), "jpg");
    assert_eq!(extension_for(&ParsedData::Image, Some(vec!["webp".to_string()])), "webp");
    assert_eq!(extension_for(&ParsedData::Image, Some(vec![])), "dat");
    assert_eq!(extension_for(&ParsedData::Image, None), "dat");
    assert_eq!(extension_for(&ParsedData::Binary, list()), "dat");
    assert_eq!(extension_for(&ParsedData::Text(String::new()), list()), "txt");
    assert_eq!(extension_for(&ParsedData::Html(String::new()), list()), "html");
}

#[test]
fn file_extension_of_a_format_with_several_is_the_first() {
    assert_eq!(with_content(&[0xff, 0xd8, 0xff], ParsedData::Image).file_extension(), "jpg");
    assert_eq!(with_content(b"MM\0*", ParsedData::Image).file_extension(), "tiff");
    assert_eq!(with_content(b"II*\0", ParsedData::Image).file_extension(), "tiff");
}

#[test]
fn file_name_is_id_dot_extension() {
    assert_eq!(
        with_content(&PNG, ParsedData::Image).file_name(),
        "ab00000000000000000000000000000000000000000000000000000000000000i3.png"
    );
}

#[test]
fn plain_text_of_binary_is_hex() {
    assert_eq!(
        with_content(&[0x00, 0x0f, 0xa0, 0xff], ParsedData::Binary).plain_text(),
        Some("000fa0ff".to_string())
    );
    assert_eq!(with_content(&[], ParsedData::Binary).plain_text(), Some(String::new()));
}

#[test]
fn plain_text_of_text_is_the_text() {
    assert_eq!(
        with_content(b"hi", ParsedData::Text("hi".to_string())).plain_text(),
        Some("hi".to_string())
    );
    assert_eq!(
        with_content(b"<p>", ParsedData::Html("<p>".to_string())).plain_text(),
        Some("<p>".to_string())
    );
}

#[test]
fn plain_text_of_json_and_images_is_left_to_the_caller() {
    assert_eq!(with_content(&PNG, ParsedData::Image).plain_text(), None);
    let json = ParsedData::Json(JsonDocument { text: "1".to_string(), protocol: None });
    assert_eq!(with_content(b"1", json).plain_text(), None);
}

#[test]
fn extract_error_messages() {
    assert_eq!(ExtractError::InputNotFound.message(), "Missing input");
    assert_eq!(ExtractError::MalformedScript.message(), "Malformed script");
}

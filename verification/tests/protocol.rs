use rerec::herodot::CommitError;
use rerec::herodot::Herodot;
use rerec::herodot::parse_commit_response;
use rerec::ident::RecordId;

const ID_TEXT: &str = "3fa85f64-5717-4562-b3fc-2c963f66afa6";
const ID_VALUE: u128 = 0x3fa85f64_5717_4562_b3fc_2c963f66afa6;

#[test]
fn commit_url_appends_record_path() {
    let herodot = Herodot::new(String::from("http://collector:8000"));
    assert_eq!(herodot.commit_url(), "http://collector:8000/api/record");
}

#[test]
fn commit_response_yields_assigned_id() {
    let body = format!("{{\"record_id\": \"{}\"}}", ID_TEXT);
    let id = parse_commit_response(&body).unwrap();
    assert_eq!(id.value, ID_VALUE);
    assert_eq!(id.render(), ID_TEXT);
}

#[test]
fn commit_response_tolerates_whitespace() {
    let body = "  { \"record_id\" :\n \"3fa85f64-5717-4562-b3fc-2c963f66afa6\" }  ";
    let id = parse_commit_response(body).unwrap();
    assert_eq!(id.value, ID_VALUE);
}

#[test]
fn commit_response_without_field_is_missing() {
    let err = parse_commit_response("{\"other\": \"x\"}").unwrap_err();
    assert!(matches!(err, CommitError::MissingRecordId));
}

#[test]
fn commit_response_not_an_object_is_malformed() {
    assert!(matches!(
        parse_commit_response("not structured at all").unwrap_err(),
        CommitError::MalformedResponse
    ));
    assert!(matches!(
        parse_commit_response("").unwrap_err(),
        CommitError::MalformedResponse
    ));
    assert!(matches!(
        parse_commit_response("{\"record_id\": 17}").unwrap_err(),
        CommitError::MalformedResponse
    ));
}

#[test]
fn commit_response_bad_identifier_is_malformed_identifier() {
    let err = parse_commit_response("{\"record_id\": \"zzz\"}").unwrap_err();
    assert!(matches!(err, CommitError::MalformedIdentifier));
}

#[test]
fn id_parse_hyphenated() {
    let id = RecordId::parse(ID_TEXT).unwrap();
    assert_eq!(id.value, ID_VALUE);
}

#[test]
fn id_parse_simple_form() {
    let id = RecordId::parse("3fa85f6457174562b3fc2c963f66afa6").unwrap();
    assert_eq!(id.value, ID_VALUE);
}

#[test]
fn id_parse_uppercase() {
    let id = RecordId::parse("3FA85F64-5717-4562-B3FC-2C963F66AFA6").unwrap();
    assert_eq!(id.value, ID_VALUE);
}

#[test]
fn id_parse_rejects_malformed() {
    assert!(RecordId::parse("").is_none());
    assert!(RecordId::parse("3fa85f64").is_none());
    assert!(RecordId::parse("3fa85f64-5717-4562-b3fc-2c963f66afa").is_none());
    assert!(RecordId::parse("3fa85f64x5717-4562-b3fc-2c963f66afa6").is_none());
    assert!(RecordId::parse("gfa85f64-5717-4562-b3fc-2c963f66afa6").is_none());
}

#[test]
fn id_render_round_trips() {
    let id = RecordId { value: ID_VALUE };
    let text = id.render();
    assert_eq!(text, ID_TEXT);
    let back = RecordId::parse(&text).unwrap();
    assert_eq!(back.value, id.value);
}

#[test]
fn id_render_pads_with_zeros() {
    let id = RecordId { value: 1 };
    assert_eq!(id.render(), "00000000-0000-0000-0000-000000000001");
}

#[test]
fn id_parse_braced() {
    let id = RecordId::parse("{3fa85f64-5717-4562-b3fc-2c963f66afa6}").unwrap();
    assert_eq!(id.value, ID_VALUE);
    // Braces wrap the hyphenated form only.
    assert!(RecordId::parse("{3fa85f6457174562b3fc2c963f66afa6}").is_none());
    assert!(RecordId::parse("[3fa85f64-5717-4562-b3fc-2c963f66afa6]").is_none());
}

#[test]
fn id_parse_urn() {
    let id = RecordId::parse("urn:uuid:3fa85f64-5717-4562-b3fc-2c963f66afa6").unwrap();
    assert_eq!(id.value, ID_VALUE);
    let id = RecordId::parse("URN:UUID:3fa85f64-5717-4562-b3fc-2c963f66afa6").unwrap();
    assert_eq!(id.value, ID_VALUE);
    assert!(RecordId::parse("nru:uuid:3fa85f64-5717-4562-b3fc-2c963f66afa6").is_none());
}

#[test]
fn commit_response_accepts_urn_identifier() {
    let body = "{\"record_id\": \"urn:uuid:3fa85f64-5717-4562-b3fc-2c963f66afa6\"}";
    let id = parse_commit_response(body).unwrap();
    assert_eq!(id.value, ID_VALUE);
}

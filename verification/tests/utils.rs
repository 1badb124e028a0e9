use npm_resource::utils::basic_token::{decode, try_decode, BasicTokenError};
use npm_resource::utils::integrity::{shasum, ssri_512};

#[test]
fn decode_doc_example() {
    let decoded = decode("YWFhOmJiYg==");
    assert_eq!(decoded.0, "aaa");
    assert_eq!(decoded.1, "bbb");
}

#[test]
fn decode_cuts_at_first_colon() {
    // base64 of "user:pa:ss"
    let decoded = decode("dXNlcjpwYTpzcw==");
    assert_eq!(decoded.0, "user");
    assert_eq!(decoded.1, "pa:ss");
}

#[test]
fn decode_reads_back_an_encoded_token() {
    for (user, password) in [("aaa", "bbb"), ("user", "pa:ss"), ("", ""), ("ünï", "cödé")] {
        let token = base64::encode(format!("{}:{}", user, password));
        assert_eq!(decode(&token), (String::from(user), String::from(password)));
    }
}

#[test]
fn try_decode_reports_each_failure() {
    assert_eq!(try_decode("not base64!"), Err(BasicTokenError::InvalidBase64));
    // base64 of the single byte 0xff, which is not UTF-8
    assert_eq!(try_decode("/w=="), Err(BasicTokenError::InvalidUtf8));
    // base64 of "aaa", which holds no colon
    assert_eq!(try_decode("YWFh"), Err(BasicTokenError::MissingSeparator));
    assert_eq!(
        try_decode("YWFhOmJiYg=="),
        Ok((String::from("aaa"), String::from("bbb")))
    );
}

#[test]
fn shasum_doc_example() {
    let shasum = shasum(b"hello world");
    assert_eq!(shasum, "2aae6c35c94fcfb415dbe95f408b9ce91ee846ed");
}

#[test]
fn shasum_of_empty_input() {
    assert_eq!(shasum(b""), "da39a3ee5e6b4b0d3255bfef95601890afd80709");
}

#[test]
fn ssri_512_doc_example() {
    let hello_world_ssri = ssri_512(b"hello world");
    assert_eq!(
        hello_world_ssri,
        "sha512-MJ7MSJwS1utMxA9QyQLytNDtd+5RGnx6m808qG1M2G+YndNbxf9JlnDaNCVbRbDP2DDoH2Bdz33FVC6TrpzXbw=="
    );
}

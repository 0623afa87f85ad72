use minghe_sip::sip::media::{copy_suite, extract_srtp_crypto_from_sdp, srtp_crypto_lines, SrtpCryptoSuite};

fn suite(sdes: &str) -> SrtpCryptoSuite {
    SrtpCryptoSuite { sdes: sdes.to_string() }
}

#[test]
fn key_follows_the_mark() {
    assert_eq!(suite("1 AES_CM_128_HMAC_SHA1_80 inline:abcd").key(), "abcd");
    assert_eq!(suite("inline:a inline:b").key(), "a ");
    assert_eq!(suite("none").key(), "");
    assert_eq!(suite("inline:").key(), "");
}

#[test]
fn lines_with_keys() {
    let sdp = "v=0\r\n a=crypto:1 X inline:a\r\na=rtpmap:0\r\ncrypto:2 Y inline:b \r\nxcrypto:3\r\n";
    assert_eq!(srtp_crypto_lines(sdp), vec!["a=crypto:1 X inline:a", "crypto:2 Y inline:b"]);
    assert!(srtp_crypto_lines("").is_empty());
}

#[test]
fn first_readable_keys_count() {
    let parsed = vec![None, Some(suite("inline:a")), Some(suite("inline:b"))];
    assert_eq!(extract_srtp_crypto_from_sdp(&parsed).unwrap().sdes, "inline:a");
    assert!(extract_srtp_crypto_from_sdp(&vec![None]).is_none());
    assert!(extract_srtp_crypto_from_sdp(&Vec::new()).is_none());
    assert_eq!(copy_suite(&Some(suite("x"))).unwrap().sdes, "x");
}

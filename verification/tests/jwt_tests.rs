use hbbs::jwt::{decode_claims, generate_token, judge_claims, verify_token, Claims};

const SECRET: &str = "testjwt";
const NOW: i64 = 1_700_000_000;

#[test]
fn generates_a_token() {
    let token = generate_token(1, 3600, NOW, SECRET).unwrap();
    assert!(!token.is_empty(), "generated token should not be empty");
    assert_eq!(token.split('.').count(), 3, "expected a three-part JWS");
}

#[test]
fn accepts_its_own_token() {
    let token = generate_token(7, 3600, NOW, SECRET).unwrap();
    let claims =
        verify_token(&token, SECRET, NOW as u64).expect("freshly minted token should verify");
    assert_eq!(claims.user_id, 7);
    assert_eq!(claims.exp, NOW as usize + 3600);
}

#[test]
fn rejects_a_bad_signature() {
    let token = generate_token(1, 3600, NOW, SECRET).unwrap();
    let mut parts: Vec<String> = token.split('.').map(|s| s.to_string()).collect();
    assert_eq!(parts.len(), 3);
    // Flip one character of the signature. Any change invalidates the MAC.
    let sig = &parts[2];
    let first = sig.chars().next().unwrap();
    let replacement = if first == 'A' { 'B' } else { 'A' };
    parts[2] = format!("{}{}", replacement, &sig[first.len_utf8()..]);
    let forged = parts.join(".");

    assert!(
        verify_token(&forged, SECRET, NOW as u64).is_err(),
        "a token with a tampered signature must be rejected"
    );
    assert_eq!(verify_token(&forged, SECRET, NOW as u64), Err("Invalid token".to_string()));
}

#[test]
fn rejects_an_expired_token() {
    // exp one hour in the past.
    let token = generate_token(1, -3600, NOW, SECRET).unwrap();
    assert!(
        verify_token(&token, SECRET, NOW as u64).is_err(),
        "an expired token must be rejected"
    );
}

#[test]
fn rejects_garbage() {
    assert!(verify_token("", SECRET, NOW as u64).is_err());
    assert!(verify_token("not-a-jwt", SECRET, NOW as u64).is_err());
    assert!(verify_token("a.b.c", SECRET, NOW as u64).is_err());
}

#[test]
fn rejects_another_secret() {
    let token = generate_token(1, 3600, NOW, "some-other-secret").unwrap();
    assert_eq!(
        verify_token(&token, SECRET, NOW as u64),
        Err("Invalid token".to_string())
    );
}

#[test]
fn token_is_the_hs256_token_of_its_claims() {
    // The header, and the claims in their order, base64url without padding.
    let token = generate_token(1, 3600, NOW, SECRET).unwrap();
    let parts: Vec<&str> = token.split('.').collect();
    let url = base64::URL_SAFE_NO_PAD;
    let header = base64::decode_config(parts[0], url).unwrap();
    let claims = base64::decode_config(parts[1], url).unwrap();
    assert_eq!(String::from_utf8(header).unwrap(), r#"{"typ":"JWT","alg":"HS256"}"#);
    assert_eq!(String::from_utf8(claims).unwrap(), r#"{"user_id":1,"exp":1700003600}"#);
}

#[test]
fn token_expires_on_the_second() {
    let token = generate_token(5, 10, NOW, SECRET).unwrap();
    assert_eq!(
        verify_token(&token, SECRET, NOW as u64 + 9),
        Ok(Claims { user_id: 5, exp: NOW as usize + 10 })
    );
    // Within the leeway it has its own text.
    assert_eq!(
        verify_token(&token, SECRET, NOW as u64 + 10),
        Err("Token status invalid or expired".to_string())
    );
    assert_eq!(
        verify_token(&token, SECRET, NOW as u64 + 70),
        Err("Token status invalid or expired".to_string())
    );
    assert_eq!(
        verify_token(&token, SECRET, NOW as u64 + 71),
        Err("Invalid token".to_string())
    );
}

#[test]
fn expiry_before_1970_wraps() {
    let token = generate_token(5, -1, 0, SECRET).unwrap();
    assert_eq!(verify_token(&token, SECRET, NOW as u64).unwrap().exp, usize::MAX);
}

#[test]
fn claims_are_judged_by_range_and_time() {
    let ok = judge_claims(Some((Some(3), Some(1001))), 1000);
    assert_eq!(ok, Ok(Claims { user_id: 3, exp: 1001 }));
    assert!(judge_claims(Some((Some(1 << 32), Some(1001))), 1000).is_err());
    assert!(judge_claims(Some((None, Some(1001))), 1000).is_err());
    assert!(judge_claims(Some((Some(3), None)), 1000).is_err());
    assert!(judge_claims(None, 1000).is_err());
}

#[test]
fn refused_token_stays_refused() {
    let token = generate_token(5, 10, NOW, SECRET).unwrap();
    for later in [10, 11, 70, 71, 1000, 1_000_000] {
        assert!(verify_token(&token, SECRET, NOW as u64 + later).is_err());
    }
}

/// A token that says `claims`, signed with the secret.
fn signed<T: AsRef<[u8]>>(claims: T) -> String {
    let url = base64::URL_SAFE_NO_PAD;
    let header = base64::encode_config(r#"{"typ":"JWT","alg":"HS256"}"#, url);
    let message = format!("{}.{}", header, base64::encode_config(claims, url));
    let key = jsonwebtoken::EncodingKey::from_secret(SECRET.as_bytes());
    let alg = jsonwebtoken::Algorithm::HS256;
    let signature = jsonwebtoken::crypto::sign(message.as_bytes(), &key, alg).unwrap();
    format!("{message}.{signature}")
}

#[test]
fn other_claims_do_not_matter() {
    let ok = Ok(Claims { user_id: 3, exp: 1_700_003_600 });
    for claims in [
        r#"{"user_id":3,"exp":1700003600}"#,
        r#"{"exp":1700003600,"name":"x","user_id":3}"#,
        r#"{"user_id":3,"exp":1700003600,"big":1e999,"list":[1,{"a":null}]}"#,
        r#"{"user_id":3,"exp":1700003600,"in":{"user_id":4,"user_id":5,"exp":6},"s":",\"user_id\":7"}"#,
        r#"{"user_id":3,"x":1,"exp":1700003600,"x":2}"#,
    ] {
        assert_eq!(verify_token(&signed(claims), SECRET, NOW as u64), ok, "{claims}");
    }
}

#[test]
fn claims_of_another_kind_are_refused() {
    for claims in [
        r#"{"exp":1700003600}"#,
        r#"{"user_id":3}"#,
        r#"{"user_id":"3","exp":1700003600}"#,
        r#"{"user_id":3.5,"exp":1700003600}"#,
        r#"{"user_id":-3,"exp":1700003600}"#,
        r#"{"user_id":4294967296,"exp":1700003600}"#,
        r#"{"user_id":3,"exp":"1700003600"}"#,
        r#"{"user_id":3,"exp":1700003600,"exp":1700003600}"#,
        r#"{"user_id":3,"exp":1700003600,"user_id":3}"#,
        r#"{"user_id":3,"user_id":4,"exp":1700003600}"#,
        r#"{"user_id":"x","exp":1700003600,"user_id":3}"#,
        r#"{ "user_id" : 3 , "a" : [ 1, 2 ] , "user\u005fid" : 3 , "exp" : 1700003600 }"#,
        r#"[3,1700003600]"#,
        r#"{"user_id":3,"exp":1700003600"#,
    ] {
        assert_eq!(
            verify_token(&signed(claims), SECRET, NOW as u64),
            Err("Invalid token".to_string()),
            "{claims}"
        );
    }
}

#[test]
fn other_claims_need_not_be_text() {
    let mut claims = br#"{"user_id":3,"exp":1700003600,"name":"?"}"#.to_vec();
    let at = claims.iter().position(|b| *b == b'?').unwrap();
    claims[at] = 0xff;
    assert_eq!(
        verify_token(&signed(&claims), SECRET, NOW as u64),
        Ok(Claims { user_id: 3, exp: 1_700_003_600 })
    );
}

#[test]
fn claims_are_decoded_under_the_secret_only() {
    let token = generate_token(9, 3600, NOW, SECRET).unwrap();
    assert_eq!(decode_claims(&token, SECRET), Some((Some(9), Some(1_700_003_600))));
    assert_eq!(decode_claims(&token, "another"), None);
    assert_eq!(decode_claims("a.b.c", SECRET), None);
    let half = signed(r#"{"exp":1700003600,"user_id":true}"#);
    assert_eq!(decode_claims(&half, SECRET), Some((None, Some(1_700_003_600))));
}

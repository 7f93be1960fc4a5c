use base64::Engine;
use chat_relay::fcm::{chat_notification_body, generate_jwt_token, mint_jwt, ServiceAccount};
use rsa::pkcs8::{EncodePrivateKey, LineEnding};
use rsa::rand_core::{CryptoRng, Error as RngError, RngCore};
use rsa::RsaPrivateKey;

/// A fixed-seed generator, good enough to mint a throwaway test key.
struct TestRng(u64);

impl RngCore for TestRng {
    fn next_u32(&mut self) -> u32 {
        self.next_u64() as u32
    }

    fn next_u64(&mut self) -> u64 {
        self.0 ^= self.0 << 13;
        self.0 ^= self.0 >> 7;
        self.0 ^= self.0 << 17;
        self.0
    }

    fn fill_bytes(&mut self, dest: &mut [u8]) {
        for chunk in dest.chunks_mut(8) {
            let bytes = self.next_u64().to_le_bytes();
            for (d, s) in chunk.iter_mut().zip(bytes.iter()) {
                *d = *s;
            }
        }
    }

    fn try_fill_bytes(&mut self, dest: &mut [u8]) -> Result<(), RngError> {
        self.fill_bytes(dest);
        Ok(())
    }
}

impl CryptoRng for TestRng {}

fn test_account(private_key: String) -> ServiceAccount {
    ServiceAccount {
        typ: "service_account".to_string(),
        project_id: "example-project".to_string(),
        private_key_id: "key-1".to_string(),
        private_key,
        client_email: "sender@example.com".to_string(),
        client_id: "1234567890".to_string(),
        auth_uri: "https://accounts.google.com/o/oauth2/auth".to_string(),
        token_uri: "https://oauth2.googleapis.com/token".to_string(),
        auth_provider_x509_cert_url: "https://www.googleapis.com/oauth2/v1/certs".to_string(),
        client_x509_cert_url: "https://www.googleapis.com/robot/v1/metadata/x509/sender"
            .to_string(),
        universe_domain: "googleapis.com".to_string(),
    }
}

fn test_key_pem() -> String {
    let mut rng = TestRng(0x853c_49e6_748f_ea9b);
    let key = RsaPrivateKey::new(&mut rng, 512).expect("key generation");
    key.to_pkcs8_pem(LineEnding::LF).expect("pem encoding").to_string()
}

#[test]
fn jwt_parts_are_the_base64_of_header_and_claim() {
    let sa = test_account(test_key_pem());
    let token = generate_jwt_token(&sa, 1_700_000_000).unwrap();
    let parts: Vec<&str> = token.split('.').collect();
    assert_eq!(parts.len(), 3);
    assert_eq!(parts[0], "eyJhbGciOiJSUzI1NiIsInR5cCI6IkpXVCIsImtpZCI6ImtleS0xIn0=");
    assert_eq!(
        parts[1],
        "eyJpc3MiOiJzZW5kZXJAZXhhbXBsZS5jb20iLCJzY29wZSI6Imh0dHBzOi8vd3d3Lmdvb2dsZWFwaXMuY29tL2F1dGgvZmlyZWJhc2UubWVzc2FnaW5nIiwiYXVkIjoiaHR0cHM6Ly9vYXV0aDIuZ29vZ2xlYXBpcy5jb20vdG9rZW4iLCJpYXQiOjE3MDAwMDAwMDAsImV4cCI6MTcwMDAwMzYwMH0="
    );
    // The signature is real: base64 of one 512-bit RSA block.
    let signature = base64::engine::general_purpose::STANDARD.decode(parts[2]).unwrap();
    assert_eq!(signature.len(), 64);
}

#[test]
fn jwt_is_deterministic_in_key_and_time() {
    let pem = test_key_pem();
    let a = generate_jwt_token(&test_account(pem.clone()), 1_700_000_000).unwrap();
    let b = generate_jwt_token(&test_account(pem), 1_700_000_000).unwrap();
    assert_eq!(a, b);
}

#[test]
fn bad_private_key_is_a_500() {
    let sa = test_account("not a pem".to_string());
    let e = generate_jwt_token(&sa, 1_700_000_000).unwrap_err();
    assert_eq!(e.status_code, 500);
}

#[test]
fn mint_jwt_signs_with_the_real_clock() {
    let sa = test_account(test_key_pem());
    let token = mint_jwt(&sa).unwrap();
    assert_eq!(token.split('.').count(), 3);
}

#[test]
fn notification_body_is_exact_json() {
    let body = chat_notification_body("tok-1", "Chat message", "You got a chat message just now", "111");
    assert_eq!(
        body,
        "{\"message\":{\"token\":\"tok-1\",\"notification\":{\"title\":\"Chat message\",\"body\":\"You got a chat message just now\"},\"data\":{\"phone\":\"111\",\"typ\":\"Chat\"}}}"
    );
}

#[test]
fn notification_body_escapes_its_fields() {
    let body = chat_notification_body("t", "a\"b", "c\\d", "e\nf");
    assert_eq!(
        body,
        "{\"message\":{\"token\":\"t\",\"notification\":{\"title\":\"a\\\"b\",\"body\":\"c\\\\d\"},\"data\":{\"phone\":\"e\\nf\",\"typ\":\"Chat\"}}}"
    );
}

//! Cryptographic operations.
use openscreen::bounded::BoundedVec;
use openscreen::crypto::operation::{
    CryptoError, CryptoOpKind, CryptoProvider, CryptoRequest, CryptoResult, HashAlgorithm,
    HashOperation, HkdfOperation, HmacOperation, Spake2Operation, MAX_CRYPTO_OUTPUT,
};
use openscreen::crypto::provider::{confirm, verify_confirmation, RustCryptoCryptoProvider};

#[test]
fn test_sha256_hash() {
    let mut provider = RustCryptoCryptoProvider::new();

    let request = CryptoRequest {
        op_id: 1,
        kind: CryptoOpKind::Hash(HashOperation {
            algorithm: HashAlgorithm::Sha256,
            data: b"hello world",
        }),
    };

    let result = provider.execute(&request).unwrap();
    assert_eq!(result.op_id, 1);
    assert_eq!(result.data.len(), 32);
}

#[test]
fn test_hmac_sha256() {
    let mut provider = RustCryptoCryptoProvider::new();

    let request = CryptoRequest {
        op_id: 2,
        kind: CryptoOpKind::Hmac(HmacOperation {
            algorithm: HashAlgorithm::Sha256,
            key: b"secret_key",
            data: b"message",
        }),
    };

    let result = provider.execute(&request).unwrap();
    assert_eq!(result.op_id, 2);
    assert_eq!(result.data.len(), 32);
}

#[test]
fn test_hkdf_sha256() {
    let mut provider = RustCryptoCryptoProvider::new();

    let request = CryptoRequest {
        op_id: 3,
        kind: CryptoOpKind::Hkdf(HkdfOperation {
            algorithm: HashAlgorithm::Sha256,
            ikm: b"input_key_material",
            salt: Some(b"salt"),
            info: b"info",
            length: 32,
        }),
    };

    let result = provider.execute(&request).unwrap();
    assert_eq!(result.op_id, 3);
    assert_eq!(result.data.len(), 32);
}

#[test]
fn test_spake2_roundtrip() {

    let mut provider_a = RustCryptoCryptoProvider::new();
    let mut provider_b = RustCryptoCryptoProvider::new();
    let password = b"test-password";

    let request_a_start = CryptoRequest {
        op_id: 10,
        kind: CryptoOpKind::Spake2(Spake2Operation::Start {
            password_id: None,
            password,
            is_responder: false,
        }),
    };

    let result_a_start = provider_a.execute(&request_a_start).unwrap();
    let a_public = result_a_start.data.clone();
    let a_state = result_a_start.data.clone();

    assert!(!a_public.is_empty());

    let request_b_start = CryptoRequest {
        op_id: 20,
        kind: CryptoOpKind::Spake2(Spake2Operation::Start {
            password_id: None,
            password,
            is_responder: true,
        }),
    };

    let result_b_start = provider_b.execute(&request_b_start).unwrap();
    let b_public = result_b_start.data.clone();
    let b_state = result_b_start.data.clone();

    assert!(!b_public.is_empty());

    let request_a_finish = CryptoRequest {
        op_id: 11,
        kind: CryptoOpKind::Spake2(Spake2Operation::Finish {
            state: a_state.as_slice(),
            peer_public: b_public.as_slice(),
        }),
    };

    let result_a_finish = provider_a.execute(&request_a_finish).unwrap();
    let a_key = result_a_finish.data;

    let request_b_finish = CryptoRequest {
        op_id: 21,
        kind: CryptoOpKind::Spake2(Spake2Operation::Finish {
            state: b_state.as_slice(),
            peer_public: a_public.as_slice(),
        }),
    };

    let result_b_finish = provider_b.execute(&request_b_finish).unwrap();
    let b_key = result_b_finish.data;

    assert_eq!(a_key.len(), b_key.len(), "Key lengths must match");
    assert!(a_key == b_key, "Derived keys must match");
    assert!(!a_key.is_empty(), "Derived key must not be empty");
}

#[test]
fn test_spake2_start_twice() {
    let mut provider = RustCryptoCryptoProvider::new();

    let request1 = CryptoRequest {
        op_id: 20,
        kind: CryptoOpKind::Spake2(Spake2Operation::Start {
            password_id: None,
            password: b"password1",
            is_responder: false,
        }),
    };

    let result1 = provider.execute(&request1).unwrap();
    let public1 = result1.data;

    let request2 = CryptoRequest {
        op_id: 21,
        kind: CryptoOpKind::Spake2(Spake2Operation::Start {
            password_id: None,
            password: b"password2",
            is_responder: false,
        }),
    };

    let result2 = provider.execute(&request2).unwrap();
    let public2 = result2.data;

    assert!(!public1.is_empty());
    assert!(!public2.is_empty());
}

#[test]
fn test_finish_verify_roundtrip_initiator_first() {

    let mut initiator = RustCryptoCryptoProvider::new();
    let mut responder = RustCryptoCryptoProvider::new();

    let password = b"test-password";
    let initiator_fingerprint = [1u8; 32];
    let responder_fingerprint = [2u8; 32];

    let init_start = initiator
        .execute(&CryptoRequest {
            op_id: 1,
            kind: CryptoOpKind::Spake2(Spake2Operation::Start {
                password_id: None,
                password,
                is_responder: false,
            }),
        })
        .unwrap();

    let resp_start = responder
        .execute(&CryptoRequest {
            op_id: 2,
            kind: CryptoOpKind::Spake2(Spake2Operation::Start {
                password_id: None,
                password,
                is_responder: true,
            }),
        })
        .unwrap();

    let init_finish = initiator
        .execute(&CryptoRequest {
            op_id: 3,
            kind: CryptoOpKind::Spake2(Spake2Operation::FinishWithConfirmation {
                state: init_start.data.as_slice(),
                peer_public: resp_start.data.as_slice(),
                message_transcript: &[],
                my_tls_fingerprint: &initiator_fingerprint,
                peer_tls_fingerprint: &responder_fingerprint,
                is_responder: false,
            }),
        })
        .unwrap();

    assert!(
        init_finish.data.len() == 128,
        "FinishWithConfirmation should return exactly 128 bytes"
    );
    let init_shared_secret = &init_finish.data.as_slice()[0..32];
    let init_confirmation = &init_finish.data.as_slice()[32..64];
    let init_initiator_key = &init_finish.data.as_slice()[64..96];
    let _init_responder_key = &init_finish.data.as_slice()[96..128];

    let resp_finish = responder
        .execute(&CryptoRequest {
            op_id: 4,
            kind: CryptoOpKind::Spake2(Spake2Operation::FinishWithConfirmation {
                state: resp_start.data.as_slice(),
                peer_public: init_start.data.as_slice(),
                message_transcript: &[],
                my_tls_fingerprint: &responder_fingerprint,
                peer_tls_fingerprint: &initiator_fingerprint,
                is_responder: true,
            }),
        })
        .unwrap();

    assert!(
        resp_finish.data.len() == 128,
        "FinishWithConfirmation should return exactly 128 bytes"
    );
    let resp_shared_secret = &resp_finish.data.as_slice()[0..32];
    let resp_confirmation = &resp_finish.data.as_slice()[32..64];
    let _resp_initiator_key = &resp_finish.data.as_slice()[64..96];
    let resp_responder_key = &resp_finish.data.as_slice()[96..128];

    let empty_transcript: heapless::Vec<u8, 512> = heapless::Vec::new();

    assert_eq!(
        init_shared_secret, resp_shared_secret,
        "Shared secrets must match!"
    );

    let mut resp_verify_context = heapless::Vec::<u8, 512>::new();
    resp_verify_context
        .extend_from_slice(&empty_transcript)
        .unwrap();
    resp_verify_context
        .extend_from_slice(init_initiator_key)
        .unwrap();

    let resp_verify = responder.execute(&CryptoRequest {
        op_id: 5,
        kind: CryptoOpKind::Spake2(Spake2Operation::VerifyConfirmation {
            context: &resp_verify_context,
            peer_confirmation: init_confirmation,
        }),
    });

    assert!(
        resp_verify.is_ok(),
        "Responder should verify initiator's confirmation successfully"
    );

    let mut init_verify_context = heapless::Vec::<u8, 512>::new();
    init_verify_context
        .extend_from_slice(&empty_transcript)
        .unwrap();
    init_verify_context
        .extend_from_slice(resp_responder_key)
        .unwrap();

    let init_verify = initiator.execute(&CryptoRequest {
        op_id: 6,
        kind: CryptoOpKind::Spake2(Spake2Operation::VerifyConfirmation {
            context: &init_verify_context,
            peer_confirmation: resp_confirmation,
        }),
    });

    assert!(
        init_verify.is_ok(),
        "Initiator should verify responder's confirmation successfully"
    );

}

#[test]
fn test_verify_fails_on_tampered_confirmation() {

    let mut initiator = RustCryptoCryptoProvider::new();
    let mut responder = RustCryptoCryptoProvider::new();

    let password = b"test-password";
    let initiator_fingerprint = [1u8; 32];
    let responder_fingerprint = [2u8; 32];

    let init_start = initiator
        .execute(&CryptoRequest {
            op_id: 1,
            kind: CryptoOpKind::Spake2(Spake2Operation::Start {
                password_id: None,
                password,
                is_responder: false,
            }),
        })
        .unwrap();

    let resp_start = responder
        .execute(&CryptoRequest {
            op_id: 2,
            kind: CryptoOpKind::Spake2(Spake2Operation::Start {
                password_id: None,
                password,
                is_responder: true,
            }),
        })
        .unwrap();

    let init_finish = initiator
        .execute(&CryptoRequest {
            op_id: 3,
            kind: CryptoOpKind::Spake2(Spake2Operation::FinishWithConfirmation {
                state: init_start.data.as_slice(),
                peer_public: resp_start.data.as_slice(),
                message_transcript: &[],
                my_tls_fingerprint: &initiator_fingerprint,
                peer_tls_fingerprint: &responder_fingerprint,
                is_responder: false,
            }),
        })
        .unwrap();

    let init_confirmation = &init_finish.data.as_slice()[32..64];
    let init_context = &init_finish.data.as_slice()[64..];

    let mut tampered_confirmation = init_confirmation.to_vec();
    tampered_confirmation[0] ^= 0x01;

    let resp_verify = responder.execute(&CryptoRequest {
        op_id: 4,
        kind: CryptoOpKind::Spake2(Spake2Operation::VerifyConfirmation {
            context: init_context,
            peer_confirmation: &tampered_confirmation,
        }),
    });

    assert!(
        resp_verify.is_err(),
        "Tampered confirmation should fail verification"
    );
    match resp_verify.err().unwrap() {
        CryptoError::VerificationFailed => {}
        err => panic!("Expected VerificationFailed, got: {err:?}"),
    }
}

#[test]
fn test_verify_fails_on_wrong_context() {

    let mut initiator1 = RustCryptoCryptoProvider::new();
    let mut responder1 = RustCryptoCryptoProvider::new();
    let mut initiator2 = RustCryptoCryptoProvider::new();
    let mut responder2 = RustCryptoCryptoProvider::new();

    let password = b"test-password";
    let initiator_fingerprint = [1u8; 32];
    let responder_fingerprint = [2u8; 32];

    let init_start1 = initiator1
        .execute(&CryptoRequest {
            op_id: 1,
            kind: CryptoOpKind::Spake2(Spake2Operation::Start {
                password_id: None,
                password,
                is_responder: false,
            }),
        })
        .unwrap();

    let resp_start1 = responder1
        .execute(&CryptoRequest {
            op_id: 2,
            kind: CryptoOpKind::Spake2(Spake2Operation::Start {
                password_id: None,
                password,
                is_responder: true,
            }),
        })
        .unwrap();

    let init_finish1 = initiator1
        .execute(&CryptoRequest {
            op_id: 3,
            kind: CryptoOpKind::Spake2(Spake2Operation::FinishWithConfirmation {
                state: init_start1.data.as_slice(),
                peer_public: resp_start1.data.as_slice(),
                message_transcript: &[],
                my_tls_fingerprint: &initiator_fingerprint,
                peer_tls_fingerprint: &responder_fingerprint,
                is_responder: false,
            }),
        })
        .unwrap();

    let confirmation1 = &init_finish1.data.as_slice()[32..64];

    let init_start2 = initiator2
        .execute(&CryptoRequest {
            op_id: 4,
            kind: CryptoOpKind::Spake2(Spake2Operation::Start {
                password_id: None,
                password,
                is_responder: false,
            }),
        })
        .unwrap();

    let resp_start2 = responder2
        .execute(&CryptoRequest {
            op_id: 5,
            kind: CryptoOpKind::Spake2(Spake2Operation::Start {
                password_id: None,
                password,
                is_responder: true,
            }),
        })
        .unwrap();

    let init_finish2 = initiator2
        .execute(&CryptoRequest {
            op_id: 6,
            kind: CryptoOpKind::Spake2(Spake2Operation::FinishWithConfirmation {
                state: init_start2.data.as_slice(),
                peer_public: resp_start2.data.as_slice(),
                message_transcript: &[],
                my_tls_fingerprint: &initiator_fingerprint,
                peer_tls_fingerprint: &responder_fingerprint,
                is_responder: false,
            }),
        })
        .unwrap();

    let context2 = &init_finish2.data.as_slice()[64..];

    let resp_verify = responder2.execute(&CryptoRequest {
        op_id: 7,
        kind: CryptoOpKind::Spake2(Spake2Operation::VerifyConfirmation {
            context: context2,
            peer_confirmation: confirmation1,
        }),
    });

    assert!(
        resp_verify.is_err(),
        "Confirmation from different handshake should fail"
    );
}

#[test]
fn test_initiator_and_responder_confirmations_are_different() {

    let mut initiator = RustCryptoCryptoProvider::new();
    let mut responder = RustCryptoCryptoProvider::new();

    let password = b"test-password";
    let initiator_fingerprint = [1u8; 32];
    let responder_fingerprint = [2u8; 32];

    let init_start = initiator
        .execute(&CryptoRequest {
            op_id: 1,
            kind: CryptoOpKind::Spake2(Spake2Operation::Start {
                password_id: None,
                password,
                is_responder: false,
            }),
        })
        .unwrap();

    let resp_start = responder
        .execute(&CryptoRequest {
            op_id: 2,
            kind: CryptoOpKind::Spake2(Spake2Operation::Start {
                password_id: None,
                password,
                is_responder: true,
            }),
        })
        .unwrap();

    let init_finish = initiator
        .execute(&CryptoRequest {
            op_id: 3,
            kind: CryptoOpKind::Spake2(Spake2Operation::FinishWithConfirmation {
                state: init_start.data.as_slice(),
                peer_public: resp_start.data.as_slice(),
                message_transcript: &[],
                my_tls_fingerprint: &initiator_fingerprint,
                peer_tls_fingerprint: &responder_fingerprint,
                is_responder: false,
            }),
        })
        .unwrap();

    let resp_finish = responder
        .execute(&CryptoRequest {
            op_id: 4,
            kind: CryptoOpKind::Spake2(Spake2Operation::FinishWithConfirmation {
                state: resp_start.data.as_slice(),
                peer_public: init_start.data.as_slice(),
                message_transcript: &[],
                my_tls_fingerprint: &responder_fingerprint,
                peer_tls_fingerprint: &initiator_fingerprint,
                is_responder: true,
            }),
        })
        .unwrap();

    let init_confirmation = &init_finish.data.as_slice()[32..64];
    let resp_confirmation = &resp_finish.data.as_slice()[32..64];

    assert_ne!(
        init_confirmation, resp_confirmation,
        "Initiator and responder must produce different confirmations"
    );
}

#[test]
fn test_finish_with_confirmation_full_transcript() {

    let mut initiator = RustCryptoCryptoProvider::new();
    let mut responder = RustCryptoCryptoProvider::new();

    let password = b"test-password";

    let initiator_tls_fp = [1u8; 32];
    let responder_tls_fp = [2u8; 32];

    let message_a = b"CBOR_MESSAGE_A_WITH_TOKEN_STATUS_PUBKEY_PLACEHOLDER_FOR_TESTING_PROTOCOL";
    let message_b = b"CBOR_MESSAGE_B_WITH_TOKEN_STATUS_PUBKEY_PLACEHOLDER_FOR_TESTING_PROTOCOL";

    let mut transcript = heapless::Vec::<u8, 512>::new();
    transcript.extend_from_slice(message_a).unwrap();
    transcript.extend_from_slice(message_b).unwrap();

    let init_start = initiator
        .execute(&CryptoRequest {
            op_id: 1,
            kind: CryptoOpKind::Spake2(Spake2Operation::Start {
                password_id: None,
                password,
                is_responder: false,
            }),
        })
        .unwrap();

    let resp_start = responder
        .execute(&CryptoRequest {
            op_id: 2,
            kind: CryptoOpKind::Spake2(Spake2Operation::Start {
                password_id: None,
                password,
                is_responder: true,
            }),
        })
        .unwrap();

    let init_finish = initiator
        .execute(&CryptoRequest {
            op_id: 3,
            kind: CryptoOpKind::Spake2(Spake2Operation::FinishWithConfirmation {
                state: init_start.data.as_slice(),
                peer_public: resp_start.data.as_slice(),
                message_transcript: &transcript,
                my_tls_fingerprint: &initiator_tls_fp,
                peer_tls_fingerprint: &responder_tls_fp,
                is_responder: false,
            }),
        })
        .unwrap();

    assert_eq!(
        init_finish.data.len(),
        128,
        "FinishWithConfirmation should return exactly 128 bytes"
    );

    let init_shared_secret = &init_finish.data.as_slice()[0..32];
    let init_confirmation = &init_finish.data.as_slice()[32..64];
    let init_initiator_key = &init_finish.data.as_slice()[64..96];
    let _init_responder_key = &init_finish.data.as_slice()[96..128];

    let resp_finish = responder
        .execute(&CryptoRequest {
            op_id: 4,
            kind: CryptoOpKind::Spake2(Spake2Operation::FinishWithConfirmation {
                state: resp_start.data.as_slice(),
                peer_public: init_start.data.as_slice(),
                message_transcript: &transcript,
                my_tls_fingerprint: &responder_tls_fp,
                peer_tls_fingerprint: &initiator_tls_fp,
                is_responder: true,
            }),
        })
        .unwrap();

    assert_eq!(
        resp_finish.data.len(),
        128,
        "Responder FinishWithConfirmation should return exactly 128 bytes"
    );
    let resp_shared_secret = &resp_finish.data.as_slice()[0..32];
    let resp_confirmation = &resp_finish.data.as_slice()[32..64];
    let _resp_initiator_key = &resp_finish.data.as_slice()[64..96];
    let resp_responder_key = &resp_finish.data.as_slice()[96..128];

    assert_eq!(
        init_shared_secret, resp_shared_secret,
        "Shared secrets must match!"
    );

    assert_ne!(
        init_confirmation, resp_confirmation,
        "Initiator and responder must produce different confirmations"
    );

    let mut resp_verify_context = heapless::Vec::<u8, 512>::new();
    resp_verify_context.extend_from_slice(&transcript).unwrap();
    resp_verify_context
        .extend_from_slice(init_initiator_key)
        .unwrap();

    let resp_verify = responder.execute(&CryptoRequest {
        op_id: 5,
        kind: CryptoOpKind::Spake2(Spake2Operation::VerifyConfirmation {
            context: &resp_verify_context,
            peer_confirmation: init_confirmation,
        }),
    });

    assert!(
        resp_verify.is_ok(),
        "Responder should verify initiator's confirmation successfully"
    );

    let mut init_verify_context = heapless::Vec::<u8, 512>::new();
    init_verify_context.extend_from_slice(&transcript).unwrap();
    init_verify_context
        .extend_from_slice(resp_responder_key)
        .unwrap();

    let init_verify = initiator.execute(&CryptoRequest {
        op_id: 6,
        kind: CryptoOpKind::Spake2(Spake2Operation::VerifyConfirmation {
            context: &init_verify_context,
            peer_confirmation: resp_confirmation,
        }),
    });

    assert!(
        init_verify.is_ok(),
        "Initiator should verify responder's confirmation successfully"
    );

}

#[test]
fn test_verify_fails_on_wrong_transcript() {

    let mut initiator = RustCryptoCryptoProvider::new();
    let mut responder = RustCryptoCryptoProvider::new();

    let password = b"test-password";
    let initiator_tls_fp = [1u8; 32];
    let responder_tls_fp = [2u8; 32];

    let message_a = b"ORIGINAL_CBOR_MESSAGE_A";
    let message_b = b"ORIGINAL_CBOR_MESSAGE_B";
    let mut transcript = heapless::Vec::<u8, 512>::new();
    transcript.extend_from_slice(message_a).unwrap();
    transcript.extend_from_slice(message_b).unwrap();

    let message_a_tampered = b"TAMPERED_CBOR_MESSAGE_A";
    let mut transcript_tampered = heapless::Vec::<u8, 512>::new();
    transcript_tampered
        .extend_from_slice(message_a_tampered)
        .unwrap();
    transcript_tampered.extend_from_slice(message_b).unwrap();

    let init_start = initiator
        .execute(&CryptoRequest {
            op_id: 1,
            kind: CryptoOpKind::Spake2(Spake2Operation::Start {
                password_id: None,
                password,
                is_responder: false,
            }),
        })
        .unwrap();

    let resp_start = responder
        .execute(&CryptoRequest {
            op_id: 2,
            kind: CryptoOpKind::Spake2(Spake2Operation::Start {
                password_id: None,
                password,
                is_responder: true,
            }),
        })
        .unwrap();

    let init_finish = initiator
        .execute(&CryptoRequest {
            op_id: 3,
            kind: CryptoOpKind::Spake2(Spake2Operation::FinishWithConfirmation {
                state: init_start.data.as_slice(),
                peer_public: resp_start.data.as_slice(),
                message_transcript: &transcript,
                my_tls_fingerprint: &initiator_tls_fp,
                peer_tls_fingerprint: &responder_tls_fp,
                is_responder: false,
            }),
        })
        .unwrap();

    let init_confirmation = &init_finish.data.as_slice()[32..64];
    let init_context = &init_finish.data.as_slice()[64..];

    let mut tampered_context = heapless::Vec::<u8, 544>::new();
    tampered_context
        .extend_from_slice(&transcript_tampered)
        .unwrap();
    let key_offset = init_context.len() - 32;
    tampered_context
        .extend_from_slice(&init_context[key_offset..])
        .unwrap();

    let resp_verify = responder.execute(&CryptoRequest {
        op_id: 4,
        kind: CryptoOpKind::Spake2(Spake2Operation::VerifyConfirmation {
            context: &tampered_context,
            peer_confirmation: init_confirmation,
        }),
    });

    assert!(
        resp_verify.is_err(),
        "Verification with tampered transcript should fail"
    );
    match resp_verify.err().unwrap() {
        CryptoError::VerificationFailed => {}
        err => panic!("Expected VerificationFailed, got: {err:?}"),
    }
}

fn hash_of(algorithm: HashAlgorithm, data: &[u8]) -> Result<CryptoResult, CryptoError> {
    RustCryptoCryptoProvider::new().execute(&CryptoRequest {
        op_id: 7,
        kind: CryptoOpKind::Hash(HashOperation { algorithm, data }),
    })
}

#[test]
fn hash_is_sha256() {
    let result = hash_of(HashAlgorithm::Sha256, b"hello world").unwrap();
    assert_eq!(result.op_id, 7);
    assert_eq!(result.data.as_slice(), &[0xb9, 0x4d, 0x27, 0xb9, 0x93, 0x4d, 0x3e, 0x08, 0xa5, 0x2e, 0x52, 0xd7, 0xda, 0x7d, 0xab, 0xfa, 0xc4, 0x84, 0xef, 0xe3, 0x7a, 0x53, 0x80, 0xee, 0x90, 0x88, 0xf7, 0xac, 0xe2, 0xef, 0xcd, 0xe9][..]);
}

#[test]
fn other_hashes_are_unsupported() {
    assert_eq!(hash_of(HashAlgorithm::Sha512, b"x").err(), Some(CryptoError::Unsupported));
    let mut provider = RustCryptoCryptoProvider::default();
    let request = CryptoRequest {
        op_id: 1,
        kind: CryptoOpKind::Hmac(HmacOperation {
            algorithm: HashAlgorithm::Sha512,
            key: b"k",
            data: b"d",
        }),
    };
    assert_eq!(provider.execute(&request).err(), Some(CryptoError::Unsupported));
    let request = CryptoRequest { op_id: 1, kind: CryptoOpKind::Other };
    assert_eq!(provider.execute(&request).err(), Some(CryptoError::Unsupported));
}

#[test]
fn code_is_hmac_sha256() {
    let mut provider = RustCryptoCryptoProvider::new();
    let request = CryptoRequest {
        op_id: 2,
        kind: CryptoOpKind::Hmac(HmacOperation {
            algorithm: HashAlgorithm::Sha256,
            key: b"secret_key",
            data: b"message",
        }),
    };
    let result = provider.execute(&request).unwrap();
    assert_eq!(result.data.as_slice(), &[0xeb, 0xb8, 0xd2, 0xee, 0x5d, 0xca, 0xd6, 0xe9, 0xd6, 0xfc, 0x0b, 0x60, 0x68, 0x11, 0xf9, 0xf0, 0x30, 0x36, 0xbd, 0xd4, 0x19, 0xa3, 0x64, 0xd1, 0xa1, 0xce, 0x1a, 0xfa, 0x1b, 0xea, 0x61, 0xfd][..]);
}

fn derived(salt: Option<&[u8]>, length: usize) -> Result<CryptoResult, CryptoError> {
    RustCryptoCryptoProvider::new().execute(&CryptoRequest {
        op_id: 3,
        kind: CryptoOpKind::Hkdf(HkdfOperation {
            algorithm: HashAlgorithm::Sha256,
            ikm: b"input_key_material",
            salt,
            info: b"info",
            length,
        }),
    })
}

#[test]
fn derived_key_is_hkdf_sha256() {
    let result = derived(Some(b"salt"), 32).unwrap();
    assert_eq!(result.data.as_slice(), &[0xd2, 0x01, 0xaa, 0xb5, 0xd1, 0x3f, 0xca, 0x49, 0x5f, 0x1c, 0x80, 0x4a, 0x8b, 0x54, 0xf4, 0x70, 0x19, 0x14, 0xc0, 0x20, 0x38, 0x9d, 0x79, 0xed, 0x1e, 0xdb, 0x81, 0x3c, 0xe9, 0xa2, 0x23, 0x70][..]);
    let result = derived(None, 80).unwrap();
    assert_eq!(
        result.data.as_slice(),
        &[0x2a, 0xb2, 0x9c, 0xa7, 0x81, 0x3c, 0x5e, 0x50, 0xc0, 0x9d, 0xe8, 0xe8, 0xb8, 0x40, 0xac, 0xd9, 0xe5, 0xb4, 0x79, 0x47, 0x3e, 0xf3, 0x76, 0x01, 0x7c, 0xca, 0x99, 0x22, 0x65, 0x7c, 0xeb, 0xdd, 0x1c, 0x95, 0xb4, 0xcd, 0x89, 0xf1, 0xdf, 0x01, 0x02, 0x7c, 0x52, 0x29, 0x2d, 0x96, 0x41, 0x25, 0x1d, 0xe2, 0xb1, 0x15, 0x23, 0xdb, 0x42, 0x71, 0xeb, 0xba, 0xdd, 0x66, 0x20, 0xfb, 0x74, 0x8b, 0x85, 0x37, 0x31, 0x58, 0xa8, 0x6e, 0xc9, 0xaf, 0x87, 0xbf, 0x14, 0x36, 0x46, 0x7c, 0xac, 0x8f][..]
    );
}

#[test]
fn derived_key_has_to_fit() {
    assert_eq!(derived(None, 0).unwrap().data.len(), 0);
    assert_eq!(derived(None, MAX_CRYPTO_OUTPUT).unwrap().data.len(), 128);
    assert_eq!(derived(None, 129).err(), Some(CryptoError::BufferTooSmall));
}

#[test]
fn confirmation_of_a_known_secret() {
    let secret: Vec<u8> = (0..32).collect();
    let ours = [9u8; 32];
    let theirs = [7u8; 32];
    let initiator = confirm(5, &secret, b"transcript", &ours, &theirs, false).unwrap();
    let responder = confirm(6, &secret, b"transcript", &theirs, &ours, true).unwrap();
    let keys = [0xdb, 0x20, 0x55, 0x8b, 0x75, 0x0d, 0xc6, 0xe0, 0x59, 0x09, 0x6b, 0x40, 0x73, 0x91, 0x06, 0x29, 0x83, 0x11, 0x6c, 0x24, 0xc2, 0x4b, 0x1e, 0x6e, 0xb9, 0x78, 0xd4, 0x58, 0x3f, 0xcc, 0xf4, 0xdc, 0x18, 0x12, 0x9b, 0xf0, 0x97, 0xbd, 0x3d, 0x83, 0x68, 0xe1, 0xd2, 0x35, 0xa1, 0x94, 0x81, 0x2f, 0xa5, 0xb3, 0x51, 0x23, 0xc0, 0xbc, 0x20, 0x27, 0x56, 0x47, 0xd5, 0xab, 0x0f, 0x6b, 0x92, 0x62];
    let initiator_code = [0x67, 0xac, 0x40, 0x8a, 0x92, 0x69, 0x17, 0xac, 0x68, 0x39, 0x54, 0x34, 0x42, 0xb2, 0xb7, 0x8e, 0xca, 0x4c, 0x41, 0xe6, 0x58, 0x09, 0xe7, 0x12, 0x0c, 0x83, 0x4c, 0xd6, 0x4d, 0x25, 0x3b, 0xf2];
    let responder_code = [0xaf, 0x5e, 0x3c, 0xcf, 0x96, 0xf7, 0x17, 0xa2, 0xd7, 0xf9, 0x1f, 0xed, 0xaf, 0x30, 0x8b, 0x70, 0xcf, 0x51, 0xce, 0x78, 0x2b, 0x23, 0xc5, 0x3d, 0x02, 0x54, 0x1f, 0x6a, 0x86, 0xc8, 0xf4, 0x58];
    assert_eq!(initiator.op_id, 5);
    assert_eq!(&initiator.data.as_slice()[..32], &secret[..]);
    assert_eq!(&initiator.data.as_slice()[32..64], &initiator_code[..]);
    assert_eq!(&initiator.data.as_slice()[64..], &keys[..]);
    assert_eq!(&responder.data.as_slice()[32..64], &responder_code[..]);
    assert_eq!(&responder.data.as_slice()[64..], &keys[..]);

    let mut context = b"transcript".to_vec();
    context.extend_from_slice(&keys[..32]);
    let accepted = verify_confirmation(8, &context, &initiator_code).unwrap();
    assert_eq!(accepted.op_id, 8);
    assert!(accepted.data.is_empty());
    assert_eq!(
        verify_confirmation(8, &context, &responder_code).err(),
        Some(CryptoError::VerificationFailed)
    );
}

#[test]
fn confirmation_keys_are_bound_to_certificates() {
    let secret = [3u8; 32];
    let keys = |mine: u8, peers: u8, is_responder: bool| {
        let result = confirm(1, &secret, b"t", &[mine; 32], &[peers; 32], is_responder).unwrap();
        result.data.as_slice()[64..].to_vec()
    };
    assert_eq!(keys(1, 2, false), keys(2, 1, true));
    assert_ne!(keys(1, 2, false), keys(3, 2, false));
    assert_ne!(keys(1, 2, false), keys(1, 3, false));
    assert_ne!(keys(1, 2, false), keys(2, 1, false));
}

#[test]
fn one_start_pays_for_one_finish() {
    let mut initiator = RustCryptoCryptoProvider::new();
    let mut responder = RustCryptoCryptoProvider::new();
    let public = start(&mut responder, true);
    assert_eq!(
        finish(&mut initiator, public.as_slice()).err(),
        Some(CryptoError::InvalidInput)
    );
    start(&mut initiator, false);
    assert!(finish(&mut initiator, public.as_slice()).is_ok());
    assert_eq!(
        finish(&mut initiator, public.as_slice()).err(),
        Some(CryptoError::InvalidInput)
    );
    start(&mut initiator, false);
    assert_eq!(
        finish(&mut initiator, b"junk").err(),
        Some(CryptoError::OperationFailed)
    );
    assert_eq!(
        finish(&mut initiator, public.as_slice()).err(),
        Some(CryptoError::InvalidInput)
    );
}

#[test]
fn confirmation_checks_lengths() {
    assert_eq!(
        verify_confirmation(1, &[0; 31], &[0; 32]).err(),
        Some(CryptoError::InvalidInput)
    );
    assert_eq!(
        verify_confirmation(1, &[0; 32], &[0; 33]).err(),
        Some(CryptoError::InvalidInput)
    );
    let long = [0u8; 49];
    assert_eq!(
        confirm(1, &[0; 32], b"", &long, &long[..48], false).err(),
        Some(CryptoError::BufferTooSmall)
    );
    assert!(confirm(1, &[0; 32], b"", &long[..48], &long[..48], false).is_ok());
}

fn start(provider: &mut RustCryptoCryptoProvider, is_responder: bool) -> BoundedVec<u8, 128> {
    provider
        .execute(&CryptoRequest {
            op_id: 1,
            kind: CryptoOpKind::Spake2(Spake2Operation::Start {
                password_id: None,
                password: b"secret",
                is_responder,
            }),
        })
        .unwrap()
        .data
}

fn finish(
    provider: &mut RustCryptoCryptoProvider,
    peer_public: &[u8],
) -> Result<CryptoResult, CryptoError> {
    provider.execute(&CryptoRequest {
        op_id: 2,
        kind: CryptoOpKind::Spake2(Spake2Operation::Finish { state: &[], peer_public }),
    })
}

#[test]
fn exchange_has_to_be_started() {
    let mut provider = RustCryptoCryptoProvider::new();
    assert_eq!(finish(&mut provider, &[0; 33]).err(), Some(CryptoError::InvalidInput));
}

#[test]
fn exchange_is_finished_once() {
    let mut initiator = RustCryptoCryptoProvider::new();
    let mut responder = RustCryptoCryptoProvider::new();
    let sent = start(&mut initiator, false);
    let answered = start(&mut responder, true);
    assert_eq!(sent.as_slice()[0], 0x41);
    assert_eq!(answered.as_slice()[0], 0x42);
    assert_eq!(sent.len(), 33);
    let ours = finish(&mut initiator, answered.as_slice()).unwrap();
    let theirs = finish(&mut responder, sent.as_slice()).unwrap();
    assert!(ours.data == theirs.data);
    assert_eq!(ours.data.len(), 32);
    assert_eq!(
        finish(&mut initiator, answered.as_slice()).err(),
        Some(CryptoError::InvalidInput)
    );
}

#[test]
fn exchange_refuses_other_lengths() {
    let mut provider = RustCryptoCryptoProvider::new();
    let _ = start(&mut provider, false);
    assert_eq!(finish(&mut provider, b"short").err(), Some(CryptoError::OperationFailed));
}

use mls_protospec::ciphersuites::{Ciphersuite, Name};
use mls_protospec::key_schedule::{
    encode_label, EpochInputs, EpochSecrets, KdfRequest, KeySchedule, KeyScheduleError, Label,
    ScheduleStep,
};

/// A stand-in for the KDF of the ciphersuite.
fn mix(tag: u8, a: &[u8], b: &[u8], length: usize) -> Vec<u8> {
    let mut out = Vec::new();
    let mut lane: u64 = 0;
    while out.len() < length {
        let mut h: u64 = 0xcbf29ce484222325 ^ lane.wrapping_mul(0x9e3779b97f4a7c15) ^ tag as u64;
        for part in [a, b] {
            h ^= part.len() as u64;
            h = h.wrapping_mul(0x100000001b3);
            for x in part {
                h ^= *x as u64;
                h = h.wrapping_mul(0x100000001b3);
            }
        }
        out.extend_from_slice(&h.to_be_bytes());
        lane += 1;
    }
    out.truncate(length);
    out
}

fn answer(request: &KdfRequest) -> Vec<u8> {
    match request {
        KdfRequest::Extract { salt, ikm } => mix(1, salt, ikm, 32),
        KdfRequest::Expand { prk, info, length } => mix(2, prk, info, *length),
    }
}

fn inputs(commit: &[u8]) -> EpochInputs {
    EpochInputs {
        init_secret: vec![],
        psk: vec![],
        commit_secret: commit.to_vec(),
        context: vec![0xc0, 0xc1],
    }
}

fn run(schedule: &KeySchedule, inputs: EpochInputs) -> (EpochSecrets, Vec<KdfRequest>) {
    let (mut state, mut request) = schedule.begin_epoch(inputs);
    let mut asked = Vec::new();
    loop {
        let response = answer(&request);
        asked.push(request);
        match schedule.advance(state, response) {
            ScheduleStep::Call(next, r) => {
                state = next;
                request = r;
            }
            ScheduleStep::Done(secrets) => return (secrets, asked),
            ScheduleStep::Failed(e) => panic!("{:?}", e),
        }
    }
}

fn label_bytes(length: u16, label: &str, context: &[u8]) -> Vec<u8> {
    let mut out = length.to_be_bytes().to_vec();
    out.push(6 + label.len() as u8);
    out.extend_from_slice(b"mls10 ");
    out.extend_from_slice(label.as_bytes());
    out.extend_from_slice(&(context.len() as u32).to_be_bytes());
    out.extend_from_slice(context);
    out
}

#[test]
fn test_early_secret() {
    let schedule = KeySchedule::default();
    let _es = schedule.early_secret(&[], &[]);
}

#[test]
fn the_early_secret_is_extracted_from_the_psk_with_the_init_secret_as_salt() {
    let schedule = KeySchedule::default();
    match schedule.early_secret(&[1, 2], &[3]) {
        KdfRequest::Extract { salt, ikm } => {
            assert_eq!(salt, vec![1, 2]);
            assert_eq!(ikm, vec![3]);
        }
        _ => panic!("an extraction was expected"),
    }
}

#[test]
fn labels() {
    let label = Label::new(32, "init", &[0xaa, 0xbb]);
    assert_eq!(
        label.encode(),
        vec![
            0, 32, // the length of the secret
            10, b'm', b'l', b's', b'1', b'0', b' ', b'i', b'n', b'i', b't', // the label
            0, 0, 0, 2, 0xaa, 0xbb, // the context
        ]
    );
    assert_eq!(label.encode(), label_bytes(32, "init", &[0xaa, 0xbb]));
    assert_eq!(encode_label(64, b"confirm", &[]), label_bytes(64, "confirm", &[]));
    assert_eq!(
        Label::new(0x0102, "", &[]).encode(),
        vec![1, 2, 6, b'm', b'l', b's', b'1', b'0', b' ', 0, 0, 0, 0]
    );
}

#[test]
fn derive_secret_expands_to_the_length_of_a_secret() {
    let schedule = KeySchedule::default();
    match schedule.derive_secret(&[7, 7], "derived") {
        KdfRequest::Expand { prk, info, length } => {
            assert_eq!(prk, vec![7, 7]);
            assert_eq!(info, label_bytes(32, "derived", &[]));
            assert_eq!(length, 32);
        }
        _ => panic!("an expansion was expected"),
    }
    let big = KeySchedule::new(Ciphersuite::new(
        Name::MLS10_256_DHKEMX448_AES256GCM_SHA512_Ed448,
    ));
    match big.derive_secret(&[1], "x") {
        KdfRequest::Expand { info, length, .. } => {
            assert_eq!(info, label_bytes(64, "x", &[]));
            assert_eq!(length, 64);
        }
        _ => panic!("an expansion was expected"),
    }
    match schedule.expand_with_label(&[1], "welcome", &[5], 16) {
        KdfRequest::Expand { prk, info, length } => {
            assert_eq!(prk, vec![1]);
            assert_eq!(info, label_bytes(16, "welcome", &[5]));
            assert_eq!(length, 16);
        }
        _ => panic!("an expansion was expected"),
    }
    let label = Label::new(16, "welcome", &[5]);
    match schedule.hkdf_expand_label(&[1], &label, 48) {
        KdfRequest::Expand { prk, info, length } => {
            assert_eq!(prk, vec![1]);
            assert_eq!(info, label_bytes(16, "welcome", &[5]));
            assert_eq!(length, 48);
        }
        _ => panic!("an expansion was expected"),
    }
}

#[test]
fn the_ladder_of_an_epoch() {
    let schedule = KeySchedule::default();
    let (secrets, asked) = run(&schedule, inputs(&[0x11; 4]));
    assert_eq!(asked.len(), 10);

    let context = [0xc0u8, 0xc1];
    let early = mix(1, &[], &[], 32);
    let derived = mix(2, &early, &label_bytes(32, "derived", &[]), 32);
    let epoch = mix(1, &derived, &[0x11; 4], 32);
    let expand = |label: &str, context: &[u8]| mix(2, &epoch, &label_bytes(32, label, context), 32);

    assert_eq!(secrets.epoch_secret, epoch);
    assert_eq!(secrets.welcome_secret, expand("welcome", &[]));
    assert_eq!(secrets.sender_data_secret, expand("sender data", &context));
    assert_eq!(secrets.handshake_secret, expand("handshake", &context));
    assert_eq!(secrets.application_secret, expand("app", &context));
    assert_eq!(secrets.exporter_secret, expand("exporter", &context));
    assert_eq!(secrets.confirmation_key, expand("confirm", &[]));
    assert_eq!(secrets.init_secret, expand("init", &[]));

    match &asked[0] {
        KdfRequest::Extract { salt, ikm } => {
            assert!(salt.is_empty());
            assert!(ikm.is_empty());
        }
        _ => panic!("an extraction was expected"),
    }
    match &asked[2] {
        KdfRequest::Extract { salt, ikm } => {
            assert_eq!(salt, &derived);
            assert_eq!(ikm, &vec![0x11; 4]);
        }
        _ => panic!("an extraction was expected"),
    }
    for i in [1usize, 3, 4, 5, 6, 7, 8, 9] {
        assert!(matches!(&asked[i], KdfRequest::Expand { length: 32, .. }));
    }
}

#[test]
fn the_init_secret_goes_into_the_next_epoch() {
    let schedule = KeySchedule::default();
    let (first, _) = run(&schedule, inputs(&[1]));
    let mut next = inputs(&[2]);
    next.init_secret = first.init_secret.clone();
    let (_, asked) = run(&schedule, next);
    match &asked[0] {
        KdfRequest::Extract { salt, .. } => assert_eq!(salt, &first.init_secret),
        _ => panic!("an extraction was expected"),
    }
}

#[test]
fn the_same_inputs_give_the_same_secrets() {
    let schedule = KeySchedule::default();
    let (a, _) = run(&schedule, inputs(&[9, 9]));
    let (b, _) = run(&schedule, inputs(&[9, 9]));
    assert_eq!(a.epoch_secret, b.epoch_secret);
    assert_eq!(a.welcome_secret, b.welcome_secret);
    assert_eq!(a.sender_data_secret, b.sender_data_secret);
    assert_eq!(a.handshake_secret, b.handshake_secret);
    assert_eq!(a.application_secret, b.application_secret);
    assert_eq!(a.exporter_secret, b.exporter_secret);
    assert_eq!(a.confirmation_key, b.confirmation_key);
    assert_eq!(a.init_secret, b.init_secret);
}

#[test]
fn another_commit_secret_gives_other_secrets() {
    let schedule = KeySchedule::default();
    let (a, _) = run(&schedule, inputs(&[9, 9]));
    let (b, _) = run(&schedule, inputs(&[9, 8]));
    assert_ne!(a.epoch_secret, b.epoch_secret);
    assert_ne!(a.welcome_secret, b.welcome_secret);
    assert_ne!(a.sender_data_secret, b.sender_data_secret);
    assert_ne!(a.handshake_secret, b.handshake_secret);
    assert_ne!(a.application_secret, b.application_secret);
    assert_ne!(a.exporter_secret, b.exporter_secret);
    assert_ne!(a.confirmation_key, b.confirmation_key);
    assert_ne!(a.init_secret, b.init_secret);
}

#[test]
fn an_output_of_the_wrong_length_ends_the_ladder() {
    let schedule = KeySchedule::default();
    let (state, _) = schedule.begin_epoch(inputs(&[1]));
    assert!(matches!(
        schedule.advance(state, vec![0; 31]),
        ScheduleStep::Failed(KeyScheduleError::DerivationFailure)
    ));
    let (state, request) = schedule.begin_epoch(inputs(&[1]));
    let state = match schedule.advance(state, answer(&request)) {
        ScheduleStep::Call(next, _) => next,
        _ => panic!("a call was expected"),
    };
    // an expansion that was refused comes back empty
    assert!(matches!(
        schedule.advance(state, vec![]),
        ScheduleStep::Failed(KeyScheduleError::DerivationFailure)
    ));
}

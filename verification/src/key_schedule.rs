//! The key schedule: the ladder of secrets of one epoch.
//!
//! ```text
//!                 init_secret_[n-1]
//!                       |
//!                       V
//!     PSK (or 0) -> KDF.Extract = early_secret
//!                       |
//!                       V
//!                 Derive-Secret(., "derived")
//!                       |
//!                       V
//!  commit_secret -> KDF.Extract = epoch_secret
//!                       |
//!                       +--> Derive-Secret(., <label>)
//!                       |    = <secret>
//!                       V
//!                 Derive-Secret(., "init")
//!                       |
//!                       V
//!                 init_secret_[n]
//! ```
//!
//! The KDF itself is not computed here. The schedule hands out what is to be
//! extracted or expanded, one call at a time, and takes the output of each in
//! return.
use crate::ciphersuites::{spec_ciphersuite, Ciphersuite, Name};
use crate::encode_util::{
    encode_slice, extend_bytes, spec_be_bytes, spec_encode_slice, u16_be_bytes, LenType,
};
use vstd::prelude::*;
use vstd::string::StringSliceAdditionalSpecFns;

verus! {

/// Why an epoch has no secrets.
#[derive(Debug, Clone, Copy, PartialEq, Eq, Structural)]
pub enum KeyScheduleError {
    /// An output of the KDF did not have the length that was asked for.
    DerivationFailure,
}

/// The number of calls of the KDF that the ladder of one epoch takes.
pub const EPOCH_STEPS: usize = 10;

/// What every label begins with: `"mls10 "`.
pub open spec fn spec_label_prefix() -> Seq<u8> {
    seq![0x6du8, 0x6cu8, 0x73u8, 0x31u8, 0x30u8, 0x20u8]
}

/// The `info` of a labelled expansion: the length of the output, what it is
/// for, and the context it is bound to.
pub struct Label {
    pub length: u16,
    pub label: String,  // "mls10 " + Label
    pub context: Vec<u8>,
}

/// The encoding of a label: the length in two bytes; `"mls10 "` and the label
/// behind their joint length in one byte; the context behind its length in
/// four bytes.
pub open spec fn spec_label(length: u16, label: Seq<u8>, context: Seq<u8>) -> Seq<u8> {
    spec_be_bytes(length as nat, 2) + spec_encode_slice(LenType::L8, spec_label_prefix() + label)
        + spec_encode_slice(LenType::L32, context)
}

impl Label {
    /// The label `label` for an output of `length` bytes, bound to `context`.
    pub fn new(length: u16, label: &str, context: &[u8]) -> (l: Self)
        ensures
            l.length == length,
            l.label@ == label@,
            l.context@ == context@,
    {
        let mut c = Vec::new();
        extend_bytes(&mut c, context);
        Label { length, label: label.to_owned(), context: c }
    }

    /// The bytes of the label.
    pub open spec fn spec_encode(&self) -> Seq<u8> {
        spec_label(self.length, vstd::utf8::encode_utf8(self.label@), self.context@)
    }

    /// The bytes of the label.
    pub fn encode(&self) -> (encoded: Vec<u8>)
        ensures
            encoded@ == self.spec_encode(),
    {
        encode_label(self.length, self.label.as_str().as_bytes(), self.context.as_slice())
    }
}

/// The encoding of the label with the length `length`, the bytes `label` behind
/// `"mls10 "` and the context `context`.
pub fn encode_label(length: u16, label: &[u8], context: &[u8]) -> (encoded: Vec<u8>)
    ensures
        encoded@ == spec_label(length, label@, context@),
{
    let mut encoded = u16_be_bytes(length);
    let mut full_label: Vec<u8> = Vec::new();
    full_label.push(0x6d);
    full_label.push(0x6c);
    full_label.push(0x73);
    full_label.push(0x31);
    full_label.push(0x30);
    full_label.push(0x20);
    assert(full_label@ =~= spec_label_prefix());
    extend_bytes(&mut full_label, label);
    encode_slice(LenType::L8, full_label.as_slice(), &mut encoded);
    encode_slice(LenType::L32, context, &mut encoded);
    encoded
}

/// One call of the KDF that the schedule asks for.
pub enum KdfRequest {
    /// HKDF-Extract with this salt on this input key material.
    Extract { salt: Vec<u8>, ikm: Vec<u8> },
    /// HKDF-Expand of this key with this info, to this length.
    Expand { prk: Vec<u8>, info: Vec<u8>, length: usize },
}

/// What a call of the KDF holds.
pub enum KdfRequestView {
    Extract { salt: Seq<u8>, ikm: Seq<u8> },
    Expand { prk: Seq<u8>, info: Seq<u8>, length: nat },
}

impl View for KdfRequest {
    type V = KdfRequestView;

    open spec fn view(&self) -> KdfRequestView {
        match self {
            KdfRequest::Extract { salt, ikm } => KdfRequestView::Extract { salt: salt@, ikm: ikm@ },
            KdfRequest::Expand { prk, info, length } => KdfRequestView::Expand {
                prk: prk@,
                info: info@,
                length: *length as nat,
            },
        }
    }
}

/// A KDF, as two functions: what it extracts and what it expands.
pub struct Kdf {
    pub extract: spec_fn(Seq<u8>, Seq<u8>) -> Seq<u8>,
    pub expand: spec_fn(Seq<u8>, Seq<u8>, nat) -> Seq<u8>,
}

impl Kdf {
    /// The output of the KDF for the call `request`.
    pub open spec fn spec_answer(self, request: KdfRequestView) -> Seq<u8> {
        match request {
            KdfRequestView::Extract { salt, ikm } => (self.extract)(salt, ikm),
            KdfRequestView::Expand { prk, info, length } => (self.expand)(prk, info, length),
        }
    }
}

/// The expansion of `secret` under a label.
pub open spec fn spec_expand_with_label(
    secret: Seq<u8>,
    label: Seq<u8>,
    context: Seq<u8>,
    length: nat,
) -> KdfRequestView {
    KdfRequestView::Expand {
        prk: secret,
        info: spec_label(length as u16, label, context),
        length,
    }
}

/// The labels of the ladder, in ASCII: `"derived"`, `"welcome"`,
/// `"sender data"`, `"handshake"`, `"app"`, `"exporter"`, `"confirm"` and
/// `"init"`, at the steps 1 and 3 to 9.
pub open spec fn spec_step_label(step: nat) -> Seq<u8> {
    if step == 1 {
        seq![0x64u8, 0x65u8, 0x72u8, 0x69u8, 0x76u8, 0x65u8, 0x64u8]
    } else if step == 3 {
        seq![0x77u8, 0x65u8, 0x6cu8, 0x63u8, 0x6fu8, 0x6du8, 0x65u8]
    } else if step == 4 {
        seq![
            0x73u8,
            0x65u8,
            0x6eu8,
            0x64u8,
            0x65u8,
            0x72u8,
            0x20u8,
            0x64u8,
            0x61u8,
            0x74u8,
            0x61u8,
        ]
    } else if step == 5 {
        seq![0x68u8, 0x61u8, 0x6eu8, 0x64u8, 0x73u8, 0x68u8, 0x61u8, 0x6bu8, 0x65u8]
    } else if step == 6 {
        seq![0x61u8, 0x70u8, 0x70u8]
    } else if step == 7 {
        seq![0x65u8, 0x78u8, 0x70u8, 0x6fu8, 0x72u8, 0x74u8, 0x65u8, 0x72u8]
    } else if step == 8 {
        seq![0x63u8, 0x6fu8, 0x6eu8, 0x66u8, 0x69u8, 0x72u8, 0x6du8]
    } else {
        seq![0x69u8, 0x6eu8, 0x69u8, 0x74u8]
    }
}

/// What goes into the ladder of one epoch.
pub struct EpochInputs {
    /// The init secret of the epoch before; empty for the first epoch.
    pub init_secret: Vec<u8>,
    /// The external pre-shared key; empty where there is none.
    pub psk: Vec<u8>,
    /// The commit secret of this epoch.
    pub commit_secret: Vec<u8>,
    /// The hash of the group context of this epoch.
    pub context: Vec<u8>,
}

/// What goes into the ladder of one epoch.
pub struct EpochInputsView {
    pub init_secret: Seq<u8>,
    pub psk: Seq<u8>,
    pub commit_secret: Seq<u8>,
    pub context: Seq<u8>,
}

impl View for EpochInputs {
    type V = EpochInputsView;

    open spec fn view(&self) -> EpochInputsView {
        EpochInputsView {
            init_secret: self.init_secret@,
            psk: self.psk@,
            commit_secret: self.commit_secret@,
            context: self.context@,
        }
    }
}

/// The call of the KDF at the step `results.len()` of the ladder, where
/// `results` are the outputs of the steps before it:
///
/// 0. `early_secret = Extract(init_secret, psk)`
/// 1. `derived = Derive-Secret(early_secret, "derived")`
/// 2. `epoch_secret = Extract(derived, commit_secret)`
/// 3. `welcome_secret = Derive-Secret(epoch_secret, "welcome")`
/// 4. to 7. the sender data, handshake, application and exporter secrets, each
///    expanded from `epoch_secret` under its label and the context
/// 8. `confirmation_key = Derive-Secret(epoch_secret, "confirm")`
/// 9. `init_secret = Derive-Secret(epoch_secret, "init")`
pub open spec fn spec_epoch_request(
    size: nat,
    inputs: EpochInputsView,
    results: Seq<Seq<u8>>,
) -> KdfRequestView {
    let step = results.len();
    if step == 0 {
        KdfRequestView::Extract { salt: inputs.init_secret, ikm: inputs.psk }
    } else if step == 1 {
        spec_expand_with_label(results[0], spec_step_label(1), Seq::empty(), size)
    } else if step == 2 {
        KdfRequestView::Extract { salt: results[1], ikm: inputs.commit_secret }
    } else if 4 <= step <= 7 {
        spec_expand_with_label(results[2], spec_step_label(step), inputs.context, size)
    } else {
        spec_expand_with_label(results[2], spec_step_label(step), Seq::empty(), size)
    }
}

/// The outputs of the first `steps` steps of the ladder under the KDF `kdf`.
pub open spec fn spec_epoch_run(
    kdf: Kdf,
    size: nat,
    inputs: EpochInputsView,
    steps: nat,
) -> Seq<Seq<u8>>
    decreases steps,
{
    if steps == 0 {
        Seq::empty()
    } else {
        let before = spec_epoch_run(kdf, size, inputs, (steps - 1) as nat);
        before.push(kdf.spec_answer(spec_epoch_request(size, inputs, before)))
    }
}

/// The secrets of one epoch.
pub struct EpochSecrets {
    pub epoch_secret: Vec<u8>,
    pub welcome_secret: Vec<u8>,
    pub sender_data_secret: Vec<u8>,
    pub handshake_secret: Vec<u8>,
    pub application_secret: Vec<u8>,
    pub exporter_secret: Vec<u8>,
    pub confirmation_key: Vec<u8>,
    /// The init secret for the epoch that follows.
    pub init_secret: Vec<u8>,
}

/// The secrets of one epoch.
pub struct EpochSecretsView {
    pub epoch_secret: Seq<u8>,
    pub welcome_secret: Seq<u8>,
    pub sender_data_secret: Seq<u8>,
    pub handshake_secret: Seq<u8>,
    pub application_secret: Seq<u8>,
    pub exporter_secret: Seq<u8>,
    pub confirmation_key: Seq<u8>,
    pub init_secret: Seq<u8>,
}

impl View for EpochSecrets {
    type V = EpochSecretsView;

    open spec fn view(&self) -> EpochSecretsView {
        EpochSecretsView {
            epoch_secret: self.epoch_secret@,
            welcome_secret: self.welcome_secret@,
            sender_data_secret: self.sender_data_secret@,
            handshake_secret: self.handshake_secret@,
            application_secret: self.application_secret@,
            exporter_secret: self.exporter_secret@,
            confirmation_key: self.confirmation_key@,
            init_secret: self.init_secret@,
        }
    }
}

/// The secrets of an epoch among the outputs of all steps of its ladder.
pub open spec fn spec_epoch_secrets(results: Seq<Seq<u8>>) -> EpochSecretsView {
    EpochSecretsView {
        epoch_secret: results[2],
        welcome_secret: results[3],
        sender_data_secret: results[4],
        handshake_secret: results[5],
        application_secret: results[6],
        exporter_secret: results[7],
        confirmation_key: results[8],
        init_secret: results[9],
    }
}

/// The ladder of one epoch, part of the way down.
pub struct EpochSchedule {
    inputs: EpochInputs,
    results: Vec<Vec<u8>>,
}

impl EpochSchedule {
    /// What went into the ladder.
    pub closed spec fn spec_inputs(&self) -> EpochInputsView {
        self.inputs@
    }

    /// The outputs of the steps that are done.
    pub closed spec fn spec_results(&self) -> Seq<Seq<u8>> {
        self.results@.map_values(|v: Vec<u8>| v@)
    }

    /// Whether the ladder has a step left.
    pub open spec fn wf(&self) -> bool {
        self.spec_results().len() < EPOCH_STEPS
    }
}

/// What the schedule asks for next.
pub enum ScheduleStep {
    /// The output of this call of the KDF is to be handed to the schedule.
    Call(EpochSchedule, KdfRequest),
    /// The ladder is done: these are the secrets of the epoch.
    Done(EpochSecrets),
    /// The epoch has no secrets.
    Failed(KeyScheduleError),
}

/// The key schedule of a group, for the KDF of its ciphersuite.
pub struct KeySchedule {
    pub ciphersuite: Ciphersuite,
}

impl Default for KeySchedule {
    fn default() -> (schedule: Self)
        ensures
            schedule.ciphersuite == spec_ciphersuite(
                Name::MLS10_128_DHKEMX25519_AES128GCM_SHA256_Ed25519,
            ),
    {
        KeySchedule { ciphersuite: Ciphersuite::default() }
    }
}

/// A copy of the bytes `b`.
pub fn bytes_to_vec(b: &[u8]) -> (v: Vec<u8>)
    ensures
        v@ == b@,
{
    let mut v = Vec::new();
    extend_bytes(&mut v, b);
    v
}

impl KeySchedule {
    /// The key schedule for `ciphersuite`.
    pub fn new(ciphersuite: Ciphersuite) -> (schedule: Self)
        ensures
            schedule.ciphersuite == ciphersuite,
    {
        KeySchedule { ciphersuite }
    }

    /// The length of every secret of the schedule: that of a key that the KDF
    /// extracts.
    pub open spec fn spec_secret_size(&self) -> nat {
        self.ciphersuite.kdf.spec_tag_size()
    }

    /// The expansion of `secret` to `length` bytes, with the encoded `label` as
    /// its info.
    pub fn hkdf_expand_label(&self, secret: &[u8], label: &Label, length: usize) -> (request:
        KdfRequest)
        ensures
            request@ == (KdfRequestView::Expand {
                prk: secret@,
                info: label.spec_encode(),
                length: length as nat,
            }),
    {
        KdfRequest::Expand { prk: bytes_to_vec(secret), info: label.encode(), length }
    }

    /// The expansion of `secret` to `length` bytes under the label `label` and
    /// the context `context`.
    pub fn expand_with_label(&self, secret: &[u8], label: &str, context: &[u8], length: u16) -> (request:
        KdfRequest)
        ensures
            request@ == spec_expand_with_label(
                secret@,
                label.spec_bytes(),
                context@,
                length as nat,
            ),
    {
        let l = Label::new(length, label, context);
        self.hkdf_expand_label(secret, &l, length as usize)
    }

    /// The expansion of `secret` to a secret of its own length under the label
    /// `label`, without a context.
    pub fn derive_secret(&self, secret: &[u8], label: &str) -> (request: KdfRequest)
        ensures
            request@ == spec_expand_with_label(
                secret@,
                label.spec_bytes(),
                Seq::empty(),
                self.spec_secret_size(),
            ),
    {
        let size = self.ciphersuite.kdf.tag_size();
        let context: Vec<u8> = Vec::new();
        self.expand_with_label(secret, label, context.as_slice(), size as u16)
    }

    /// The extraction that gives the early secret of an epoch.
    pub fn early_secret(&self, init_secret: &[u8], psk: &[u8]) -> (request: KdfRequest)
        ensures
            request@ == (KdfRequestView::Extract { salt: init_secret@, ikm: psk@ }),
    {
        KdfRequest::Extract { salt: bytes_to_vec(init_secret), ikm: bytes_to_vec(psk) }
    }
}

/// The label of a step of the ladder.
fn step_label(step: usize) -> (label: Vec<u8>)
    requires
        step == 1 || 3 <= step <= 9,
    ensures
        label@ == spec_step_label(step as nat),
{
    let mut l: Vec<u8> = Vec::new();
    if step == 1 {
        l.push(0x64);
        l.push(0x65);
        l.push(0x72);
        l.push(0x69);
        l.push(0x76);
        l.push(0x65);
        l.push(0x64);
    } else if step == 3 {
        l.push(0x77);
        l.push(0x65);
        l.push(0x6c);
        l.push(0x63);
        l.push(0x6f);
        l.push(0x6d);
        l.push(0x65);
    } else if step == 4 {
        l.push(0x73);
        l.push(0x65);
        l.push(0x6e);
        l.push(0x64);
        l.push(0x65);
        l.push(0x72);
        l.push(0x20);
        l.push(0x64);
        l.push(0x61);
        l.push(0x74);
        l.push(0x61);
    } else if step == 5 {
        l.push(0x68);
        l.push(0x61);
        l.push(0x6e);
        l.push(0x64);
        l.push(0x73);
        l.push(0x68);
        l.push(0x61);
        l.push(0x6b);
        l.push(0x65);
    } else if step == 6 {
        l.push(0x61);
        l.push(0x70);
        l.push(0x70);
    } else if step == 7 {
        l.push(0x65);
        l.push(0x78);
        l.push(0x70);
        l.push(0x6f);
        l.push(0x72);
        l.push(0x74);
        l.push(0x65);
        l.push(0x72);
    } else if step == 8 {
        l.push(0x63);
        l.push(0x6f);
        l.push(0x6e);
        l.push(0x66);
        l.push(0x69);
        l.push(0x72);
        l.push(0x6d);
    } else {
        l.push(0x69);
        l.push(0x6e);
        l.push(0x69);
        l.push(0x74);
    }
    assert(l@ =~= spec_step_label(step as nat));
    l
}

impl KeySchedule {
    /// The call of the KDF at the step `results.len()` of the ladder.
    fn epoch_request(&self, inputs: &EpochInputs, results: &Vec<Vec<u8>>) -> (request: KdfRequest)
        requires
            results@.len() < EPOCH_STEPS,
        ensures
            request@ == spec_epoch_request(
                self.spec_secret_size(),
                inputs@,
                results@.map_values(|v: Vec<u8>| v@),
            ),
    {
        let step = results.len();
        let size = self.ciphersuite.kdf.tag_size();
        if step == 0 {
            self.early_secret(inputs.init_secret.as_slice(), inputs.psk.as_slice())
        } else if step == 2 {
            KdfRequest::Extract {
                salt: bytes_to_vec(results[1].as_slice()),
                ikm: bytes_to_vec(inputs.commit_secret.as_slice()),
            }
        } else {
            let label = step_label(step);
            let empty: Vec<u8> = Vec::new();
            let prk = if step == 1 {
                bytes_to_vec(results[0].as_slice())
            } else {
                bytes_to_vec(results[2].as_slice())
            };
            let info = if 4 <= step && step <= 7 {
                encode_label(size as u16, label.as_slice(), inputs.context.as_slice())
            } else {
                encode_label(size as u16, label.as_slice(), empty.as_slice())
            };
            KdfRequest::Expand { prk, info, length: size }
        }
    }

    /// Begins the ladder of an epoch. Returns the schedule and the first call of
    /// the KDF that it asks for.
    pub fn begin_epoch(&self, inputs: EpochInputs) -> (r: (EpochSchedule, KdfRequest))
        ensures
            r.0.wf(),
            r.0.spec_inputs() == inputs@,
            r.0.spec_results() == Seq::<Seq<u8>>::empty(),
            r.1@ == spec_epoch_request(self.spec_secret_size(), inputs@, Seq::empty()),
    {
        let results: Vec<Vec<u8>> = Vec::new();
        let request = self.epoch_request(&inputs, &results);
        let state = EpochSchedule { inputs, results };
        assert(state.spec_results() =~= Seq::<Seq<u8>>::empty());
        (state, request)
    }

    /// Takes the output of the call of the KDF that `state` asked for last, and
    /// says what is next: another call, or the secrets of the epoch. An output of
    /// another length than that of a secret ends the ladder without secrets.
    pub fn advance(&self, state: EpochSchedule, response: Vec<u8>) -> (step: ScheduleStep)
        requires
            state.wf(),
        ensures
            response@.len() != self.spec_secret_size() ==> (step matches ScheduleStep::Failed(e)
                && e == KeyScheduleError::DerivationFailure),
            response@.len() == self.spec_secret_size() && state.spec_results().len() + 1
                < EPOCH_STEPS ==> (step matches ScheduleStep::Call(next, request) && {
                &&& next.wf()
                &&& next.spec_inputs() == state.spec_inputs()
                &&& next.spec_results() == state.spec_results().push(response@)
                &&& request@ == spec_epoch_request(
                    self.spec_secret_size(),
                    next.spec_inputs(),
                    next.spec_results(),
                )
            }),
            response@.len() == self.spec_secret_size() && state.spec_results().len() + 1
                == EPOCH_STEPS ==> (step matches ScheduleStep::Done(secrets) && secrets@
                == spec_epoch_secrets(state.spec_results().push(response@))),
    {
        if response.len() != self.ciphersuite.kdf.tag_size() {
            return ScheduleStep::Failed(KeyScheduleError::DerivationFailure);
        }
        let ghost before = state.spec_results();
        let ghost after = before.push(response@);
        let EpochSchedule { inputs, results } = state;
        let mut results = results;
        results.push(response);
        assert(results@.map_values(|v: Vec<u8>| v@) =~= after);
        if results.len() < EPOCH_STEPS {
            let request = self.epoch_request(&inputs, &results);
            let next = EpochSchedule { inputs, results };
            return ScheduleStep::Call(next, request);
        }
        let init_secret = take_last(&mut results);
        let confirmation_key = take_last(&mut results);
        let exporter_secret = take_last(&mut results);
        let application_secret = take_last(&mut results);
        let handshake_secret = take_last(&mut results);
        let sender_data_secret = take_last(&mut results);
        let welcome_secret = take_last(&mut results);
        let epoch_secret = take_last(&mut results);
        ScheduleStep::Done(
            EpochSecrets {
                epoch_secret,
                welcome_secret,
                sender_data_secret,
                handshake_secret,
                application_secret,
                exporter_secret,
                confirmation_key,
                init_secret,
            },
        )
    }
}

/// Takes the last of `results` off.
fn take_last(results: &mut Vec<Vec<u8>>) -> (last: Vec<u8>)
    requires
        old(results)@.len() > 0,
    ensures
        last@ == old(results)@.last()@,
        final(results)@ == old(results)@.drop_last(),
{
    match results.pop() {
        Some(v) => v,
        None => Vec::new(),
    }
}

/// One more step of the ladder under a KDF: where the schedule has the outputs
/// of the KDF for its first steps and is handed the output of the KDF for the
/// call that it asked for, it has the outputs of the KDF for one step more.
pub proof fn lemma_epoch_run_step(
    kdf: Kdf,
    size: nat,
    inputs: EpochInputsView,
    results: Seq<Seq<u8>>,
    response: Seq<u8>,
)
    requires
        results == spec_epoch_run(kdf, size, inputs, results.len()),
        response == kdf.spec_answer(spec_epoch_request(size, inputs, results)),
    ensures
        results.push(response) == spec_epoch_run(kdf, size, inputs, results.len() + 1),
{
}

/// The ladder is a function of what goes into it: the same init secret, PSK,
/// commit secret and context give the same secrets.
pub proof fn lemma_epoch_deterministic(kdf: Kdf, size: nat, a: EpochInputsView, b: EpochInputsView)
    requires
        a.init_secret == b.init_secret,
        a.psk == b.psk,
        a.commit_secret == b.commit_secret,
        a.context == b.context,
    ensures
        spec_epoch_secrets(spec_epoch_run(kdf, size, a, EPOCH_STEPS as nat)) == spec_epoch_secrets(
            spec_epoch_run(kdf, size, b, EPOCH_STEPS as nat),
        ),
{
    assert(a == b);
}

/// Under a KDF that never gives one output for two inputs, another commit
/// secret gives another epoch secret, and with it every secret that is derived
/// from the epoch secret is another.
pub proof fn lemma_commit_secret_changes_secrets(
    kdf: Kdf,
    size: nat,
    a: EpochInputsView,
    b: EpochInputsView,
)
    requires
        a.init_secret == b.init_secret,
        a.psk == b.psk,
        a.context == b.context,
        a.commit_secret != b.commit_secret,
        forall|sa: Seq<u8>, ia: Seq<u8>, sb: Seq<u8>, ib: Seq<u8>|
            #[trigger] (kdf.extract)(sa, ia) == #[trigger] (kdf.extract)(sb, ib) ==> sa == sb
                && ia == ib,
        forall|ka: Seq<u8>, ia: Seq<u8>, la: nat, kb: Seq<u8>, ib: Seq<u8>, lb: nat|
            #[trigger] (kdf.expand)(ka, ia, la) == #[trigger] (kdf.expand)(kb, ib, lb) ==> ka == kb
                && ia == ib,
    ensures
        ({
            let x = spec_epoch_secrets(spec_epoch_run(kdf, size, a, EPOCH_STEPS as nat));
            let y = spec_epoch_secrets(spec_epoch_run(kdf, size, b, EPOCH_STEPS as nat));
            &&& x.epoch_secret != y.epoch_secret
            &&& x.welcome_secret != y.welcome_secret
            &&& x.sender_data_secret != y.sender_data_secret
            &&& x.handshake_secret != y.handshake_secret
            &&& x.application_secret != y.application_secret
            &&& x.exporter_secret != y.exporter_secret
            &&& x.confirmation_key != y.confirmation_key
            &&& x.init_secret != y.init_secret
        }),
{
    reveal_with_fuel(spec_epoch_run, 11);
    let ra = spec_epoch_run(kdf, size, a, EPOCH_STEPS as nat);
    let rb = spec_epoch_run(kdf, size, b, EPOCH_STEPS as nat);
    let a3 = spec_epoch_run(kdf, size, a, 3);
    let b3 = spec_epoch_run(kdf, size, b, 3);
    assert(ra[2] == a3[2]);
    assert(rb[2] == b3[2]);
    assert(a3[2] != b3[2]);
}

} // verus!

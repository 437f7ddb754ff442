//! The protocol sequence: setup, then proving, then verification.
//!
//! Parameter generation and proof creation draw randomness and take the
//! circuit through an interface that only the caller can supply, so the
//! driver here decides and the caller acts: each step takes what happened
//! and says what to do next. Verification needs neither, and is done here.

use crate::circuit::MyCircuit;
use crate::field::{fr_from_i128, le_value, modulus, twos_complement, FieldElement};
use crate::r1cs::SynthesisFault;
use crate::witness::WitnessValue;
use bellperson::groth16::{prepare_verifying_key, verify_proof, Proof, VerifyingKey};
use blstrs::{Bls12, Scalar};
use vstd::prelude::*;

verus! {

/// Which encoding kept a proof from being checked at all.
#[derive(Clone, Copy, Debug, PartialEq, Eq, Structural)]
pub enum Malformed {
    /// The bytes are not the encoding of a verifying key.
    VerifyingKey,
    /// The bytes are too few for a proof, or not the encoding of one.
    Proof,
    /// The verifying key is for another number of public inputs.
    Statement,
}

/// Why the protocol stopped.
#[derive(Clone, Copy, Debug, PartialEq, Eq, Structural)]
pub enum ProtocolError {
    /// Setup could not shape the circuit.
    Shaping(SynthesisFault),
    /// Proving needed a witness value that was absent.
    AssignmentMissing,
    /// Proving failed for another reason.
    Proving(SynthesisFault),
    /// The proof or the key is not a valid encoding.
    MalformedProof(Malformed),
    /// Something was reported that the current phase does not wait for.
    OutOfOrder,
}

/// What the verification service answers for a verifying key, a proof and
/// the values of the public inputs: whether the proof holds of them, or
/// which encoding is malformed.
pub uninterp spec fn groth16_check(vk: Seq<u8>, proof: Seq<u8>, statement: Seq<nat>) -> Result<
    bool,
    Malformed,
>;

/// The number of bytes in the encoding of a proof.
pub const PROOF_LEN: usize = 192;

/// The number of bytes in the encoding of a verifying key, before the
/// points that it holds for the public inputs.
pub const KEY_MIN_LEN: usize = 868;

/// The numbers that a list of encodings denotes.
pub open spec fn encoded_values(encodings: Seq<[u8; 32]>) -> Seq<nat> {
    encodings.map_values(|e: [u8; 32]| le_value(e@))
}

/// The values of a list of field elements.
pub open spec fn element_values(elements: Seq<FieldElement>) -> Seq<nat> {
    elements.map_values(|e: FieldElement| e@)
}

/// What the driver reports for an answer of the verification service: a
/// proof that does not hold is an ordinary answer, a malformed encoding is
/// an error.
pub open spec fn verdict(answer: Result<bool, Malformed>) -> Result<bool, ProtocolError> {
    match answer {
        Ok(valid) => Ok(valid),
        Err(m) => Err(ProtocolError::MalformedProof(m)),
    }
}

/// `VerifyingKey::read` and `Proof::read` of `bellperson::groth16` on the
/// two encodings, `Scalar::from_bytes_le` on each public input, then
/// `prepare_verifying_key` and `verify_proof`. The contract claims that
/// the answer is a function of the three arguments, which function being
/// left to the outside crate, and that too few bytes are refused: a key
/// is read first and has six points and a count before anything else, and
/// a proof is read next and has three points.
#[verifier::external_body]
fn groth16_verify(vk: &[u8], proof: &[u8], statement: &Vec<[u8; 32]>) -> (r: Result<
    bool,
    Malformed,
>)
    requires
        forall|i: int| 0 <= i < statement@.len() ==> le_value(#[trigger] statement@[i]@) < modulus(),
    ensures
        r == groth16_check(vk@, proof@, encoded_values(statement@)),
        vk@.len() < KEY_MIN_LEN ==> r is Err && r->Err_0 == Malformed::VerifyingKey,
        proof@.len() < PROOF_LEN ==> r is Err,
{
    let Ok(key) = VerifyingKey::<Bls12>::read(vk) else { return Err(Malformed::VerifyingKey) };
    let Ok(proof) = Proof::<Bls12>::read(proof) else { return Err(Malformed::Proof) };
    let inputs: Vec<Scalar> =
        statement.iter().map(|e| Scalar::from_bytes_le(e).unwrap()).collect();
    verify_proof(&prepare_verifying_key(&key), &proof, &inputs).map_err(|_| Malformed::Statement)
}

/// The public inputs for a claimed output: exactly one field element, the
/// encoding of the output.
pub fn public_inputs(out: i128) -> (r: Vec<FieldElement>)
    ensures
        r@.len() == 1,
        r@[0]@ == twos_complement(out),
        element_values(r@) == seq![twos_complement(out)],
{
    let mut inputs: Vec<FieldElement> = Vec::new();
    inputs.push(fr_from_i128(out));
    proof {
        assert(element_values(inputs@) =~= seq![twos_complement(out)]);
    }
    inputs
}

/// Turns the answer of the verification service into the driver's result.
pub fn interpret(answer: Result<bool, Malformed>) -> (r: Result<bool, ProtocolError>)
    ensures
        r == verdict(answer),
{
    match answer {
        Ok(valid) => Ok(valid),
        Err(m) => Err(ProtocolError::MalformedProof(m)),
    }
}

/// Checks a proof against a list of public inputs, each given as a field
/// element.
pub fn verify_statement(vk: &[u8], proof: &[u8], statement: &Vec<FieldElement>) -> (r: Result<
    bool,
    ProtocolError,
>)
    ensures
        r == verdict(groth16_check(vk@, proof@, element_values(statement@))),
        vk@.len() < KEY_MIN_LEN ==> r == Err::<bool, ProtocolError>(
            ProtocolError::MalformedProof(Malformed::VerifyingKey),
        ),
        proof@.len() < PROOF_LEN ==> r is Err,
{
    let mut encodings: Vec<[u8; 32]> = Vec::new();
    let mut i: usize = 0;
    while i < statement.len()
        invariant
            i <= statement@.len(),
            encodings@.len() == i,
            forall|k: int|
                0 <= k < i ==> le_value(#[trigger] encodings@[k]@) == statement@[k]@
                    && statement@[k]@ < modulus(),
        decreases statement@.len() - i,
    {
        let element = &statement[i];
        proof {
            use_type_invariant(element);
            element.lemma_wf();
        }
        encodings.push(element.to_bytes_le());
        i += 1;
    }
    proof {
        assert(encoded_values(encodings@) =~= element_values(statement@));
    }
    interpret(groth16_verify(vk, proof, &encodings))
}

/// Checks a proof against a claimed output of the polynomial. The public
/// inputs are exactly one field element, the encoding of the output.
///
/// A proof that does not hold of the output gives `Ok(false)`; only a
/// malformed encoding gives an error.
pub fn verify(vk: &[u8], proof: &[u8], out: i128) -> (r: Result<bool, ProtocolError>)
    ensures
        r == verdict(groth16_check(vk@, proof@, seq![twos_complement(out)])),
        vk@.len() < KEY_MIN_LEN ==> r == Err::<bool, ProtocolError>(
            ProtocolError::MalformedProof(Malformed::VerifyingKey),
        ),
        proof@.len() < PROOF_LEN ==> r is Err,
{
    let statement = public_inputs(out);
    verify_statement(vk, proof, &statement)
}

/// Where the protocol stands. The phases come in this order and none is
/// entered twice; the last two are final.
#[derive(Clone, Copy, Debug, PartialEq, Eq, Structural)]
pub enum Phase {
    /// Waiting for the proving parameters.
    Setup,
    /// Waiting for the proof.
    Prove,
    /// The proof was checked, with this answer.
    Done(bool),
    /// The protocol stopped with this error.
    Failed(ProtocolError),
}

/// What the caller reports to the driver.
#[derive(Clone, Debug, PartialEq, Eq)]
pub enum Event {
    /// The parameters were generated.
    ParametersReady,
    /// The proof was created. The caller hands over the encodings of the
    /// verifying key that came with the parameters and of the proof.
    ProofReady { vk: Vec<u8>, proof: Vec<u8> },
    /// The service that was asked reported a failure.
    Fault(SynthesisFault),
}

/// What the driver asks of the caller.
#[derive(Clone, Copy, Debug, PartialEq, Eq)]
pub enum Action {
    /// Generate the proving parameters for this circuit.
    GenerateParameters(MyCircuit),
    /// Create a proof for this circuit with the parameters.
    CreateProof(MyCircuit),
    /// Report whether the proof holds, and stop.
    Report(bool),
    /// Stop with this error.
    Abort(ProtocolError),
}

/// The protocol's state: the phase, the secret input and the claimed
/// output.
#[derive(Clone, Copy, Debug, PartialEq, Eq)]
pub struct Driver {
    pub phase: Phase,
    pub witness: WitnessValue,
    pub statement: i128,
}

/// The place of a phase in the order of the protocol.
pub open spec fn rank(phase: Phase) -> nat {
    match phase {
        Phase::Setup => 0,
        Phase::Prove => 1,
        Phase::Done(_) => 2,
        Phase::Failed(_) => 2,
    }
}

/// The error for a failure that the proving service reported.
pub open spec fn proving_error(fault: SynthesisFault) -> ProtocolError {
    if fault == SynthesisFault::AssignmentMissing {
        ProtocolError::AssignmentMissing
    } else {
        ProtocolError::Proving(fault)
    }
}

/// The phase that follows a phase and an event, where the claimed output
/// is `statement`.
pub open spec fn next_phase(phase: Phase, statement: i128, event: Event) -> Phase {
    match phase {
        Phase::Setup => match event {
            Event::ParametersReady => Phase::Prove,
            Event::Fault(fault) => Phase::Failed(ProtocolError::Shaping(fault)),
            Event::ProofReady { .. } => Phase::Failed(ProtocolError::OutOfOrder),
        },
        Phase::Prove => match event {
            Event::ProofReady { vk, proof } => match verdict(
                groth16_check(vk@, proof@, seq![twos_complement(statement)]),
            ) {
                Ok(valid) => Phase::Done(valid),
                Err(error) => Phase::Failed(error),
            },
            Event::Fault(fault) => Phase::Failed(proving_error(fault)),
            Event::ParametersReady => Phase::Failed(ProtocolError::OutOfOrder),
        },
        Phase::Done(valid) => Phase::Done(valid),
        Phase::Failed(error) => Phase::Failed(error),
    }
}

/// What a state asks of the caller. Setup gets the circuit without its
/// witness, proving the circuit with it.
pub open spec fn action_for(phase: Phase, witness: WitnessValue) -> Action {
    match phase {
        Phase::Setup => Action::GenerateParameters(MyCircuit { x: None }),
        Phase::Prove => Action::CreateProof(MyCircuit { x: witness }),
        Phase::Done(valid) => Action::Report(valid),
        Phase::Failed(error) => Action::Abort(error),
    }
}

/// The protocol never goes back: each step leaves the phase where it is
/// or moves it on, and a final phase stays for good.
pub proof fn lemma_phases_advance(phase: Phase, statement: i128, event: Event)
    ensures
        rank(next_phase(phase, statement, event)) >= rank(phase),
        rank(phase) == 2 ==> next_phase(phase, statement, event) == phase,
        rank(phase) < 2 ==> rank(next_phase(phase, statement, event)) > rank(phase),
{
}

impl Driver {
    /// The protocol at its start, for a secret input and a claimed output.
    pub fn start(witness: WitnessValue, statement: i128) -> (r: Driver)
        ensures
            r == (Driver { phase: Phase::Setup, witness, statement }),
    {
        Driver { phase: Phase::Setup, witness, statement }
    }

    /// What the driver now asks of the caller.
    pub fn action(&self) -> (r: Action)
        ensures
            r == action_for(self.phase, self.witness),
    {
        match self.phase {
            Phase::Setup => Action::GenerateParameters(MyCircuit { x: None }),
            Phase::Prove => Action::CreateProof(MyCircuit { x: self.witness }),
            Phase::Done(valid) => Action::Report(valid),
            Phase::Failed(error) => Action::Abort(error),
        }
    }

    /// Takes what the caller reports and moves on. When the proof arrives
    /// it is checked here, against the claimed output.
    pub fn step(self, event: Event) -> (r: Driver)
        ensures
            r.phase == next_phase(self.phase, self.statement, event),
            r.witness == self.witness,
            r.statement == self.statement,
            rank(r.phase) >= rank(self.phase),
    {
        let phase = match self.phase {
            Phase::Setup => match event {
                Event::ParametersReady => Phase::Prove,
                Event::Fault(fault) => Phase::Failed(ProtocolError::Shaping(fault)),
                Event::ProofReady { .. } => Phase::Failed(ProtocolError::OutOfOrder),
            },
            Phase::Prove => match event {
                Event::ProofReady { vk, proof } => match verify(
                    vk.as_slice(),
                    proof.as_slice(),
                    self.statement,
                ) {
                    Ok(valid) => Phase::Done(valid),
                    Err(error) => Phase::Failed(error),
                },
                Event::Fault(fault) => match fault {
                    SynthesisFault::AssignmentMissing => Phase::Failed(
                        ProtocolError::AssignmentMissing,
                    ),
                    _ => Phase::Failed(ProtocolError::Proving(fault)),
                },
                Event::ParametersReady => Phase::Failed(ProtocolError::OutOfOrder),
            },
            Phase::Done(valid) => Phase::Done(valid),
            Phase::Failed(error) => Phase::Failed(error),
        };
        Driver { phase, witness: self.witness, statement: self.statement }
    }
}

} // verus!

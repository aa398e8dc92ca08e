//! Admission of bound observations by the registry of features.
//!
//! A registry holds more than the library reads of it: whether an observation is sound in itself
//! and lies within its registered definition is the registry's own answer. An emission therefore
//! ends in candidates. Each is put to the registry, and the registry's verdicts decide what is
//! emitted.

use vstd::prelude::*;

use super::emission::FeatureEmissionError;
use super::microstructure_emission::Task5EmissionError;
use super::task6_emission::Task6EmissionError;
use crate::domain::RegistryError;
use crate::registry::FeatureObservation;

verus! {

/// What the registry answers of one observation: first whether the observation is sound in
/// itself, then whether it lies within its registered definition.
pub type Verdict = Result<(), RegistryError>;

/// Why an observation is not emitted, where the registry may be the one that refuses it.
pub trait EmissionError: Sized {
    /// The error that a refusal of the registry becomes.
    spec fn of_registry(error: RegistryError) -> Self;

    fn from_registry(error: RegistryError) -> (own: Self)
        ensures
            own == Self::of_registry(error),
    ;
}

impl EmissionError for FeatureEmissionError {
    open spec fn of_registry(error: RegistryError) -> Self {
        FeatureEmissionError::Registry(error)
    }

    fn from_registry(error: RegistryError) -> (own: Self) {
        FeatureEmissionError::Registry(error)
    }
}

impl EmissionError for Task5EmissionError {
    open spec fn of_registry(error: RegistryError) -> Self {
        Task5EmissionError::Registry(error)
    }

    fn from_registry(error: RegistryError) -> (own: Self) {
        Task5EmissionError::Registry(error)
    }
}

impl EmissionError for Task6EmissionError {
    open spec fn of_registry(error: RegistryError) -> Self {
        Task6EmissionError::Registry(error)
    }

    fn from_registry(error: RegistryError) -> (own: Self) {
        Task6EmissionError::Registry(error)
    }
}

/// An observation as the registry's verdict leaves it: unchanged, or refused for the registry's
/// reason.
pub fn admitted(observation: FeatureObservation, verdict: Verdict) -> (result: Result<
    FeatureObservation,
    RegistryError,
>)
    ensures
        match verdict {
            Ok(()) => result == Ok::<FeatureObservation, RegistryError>(observation),
            Err(error) => result == Err::<FeatureObservation, RegistryError>(error),
        },
{
    match verdict {
        Ok(()) => Ok(observation),
        Err(error) => Err(error),
    }
}

/// A bound observation that the registry has not answered for.
#[derive(Debug)]
pub struct Candidate {
    observation: FeatureObservation,
}

impl View for Candidate {
    type V = FeatureObservation;

    closed spec fn view(&self) -> FeatureObservation {
        self.observation
    }
}

impl Candidate {
    pub(crate) fn new(observation: FeatureObservation) -> (candidate: Self)
        ensures
            candidate@ == observation,
    {
        Self { observation }
    }

    /// The observation to put to the registry.
    pub fn observation(&self) -> (observation: &FeatureObservation)
        ensures
            *observation == self@,
    {
        &self.observation
    }

    /// What is emitted under the registry's verdict on the observation.
    pub fn emitted<E: EmissionError>(self, verdict: Verdict) -> (result: Result<
        FeatureObservation,
        E,
    >)
        ensures
            match verdict {
                Ok(()) => result == Ok::<FeatureObservation, E>(self@),
                Err(error) => result == Err::<FeatureObservation, E>(E::of_registry(error)),
            },
    {
        match admitted(self.observation, verdict) {
            Ok(observation) => Ok(observation),
            Err(error) => Err(E::from_registry(error)),
        }
    }
}

/// Bound observations that the registry has not answered for, in the order of their data, and the
/// failure of the datum behind the last of them, if one failed.
#[derive(Debug)]
pub struct Candidates<E> {
    observations: Vec<FeatureObservation>,
    stopped: Option<E>,
}

/// The contents of [`Candidates`].
pub struct CandidatesView<E> {
    pub observations: Seq<FeatureObservation>,
    pub stopped: Option<E>,
}

impl<E> View for Candidates<E> {
    type V = CandidatesView<E>;

    closed spec fn view(&self) -> CandidatesView<E> {
        CandidatesView { observations: self.observations@, stopped: self.stopped }
    }
}

/// The first refusal among verdicts, if there is one.
pub open spec fn first_refusal(verdicts: Seq<Verdict>) -> Option<RegistryError>
    decreases verdicts.len(),
{
    if verdicts.len() == 0 {
        None
    } else {
        match verdicts[0] {
            Err(error) => Some(error),
            Ok(()) => first_refusal(verdicts.drop_first()),
        }
    }
}

/// What a list of candidates comes to. The data are taken one by one, each bound and then put to
/// the registry: a refusal of the registry comes before the failure of a later datum.
pub open spec fn emission<E: EmissionError>(
    candidates: CandidatesView<E>,
    verdicts: Seq<Verdict>,
) -> Result<Seq<FeatureObservation>, E> {
    match (first_refusal(verdicts), candidates.stopped) {
        (Some(error), _) => Err(E::of_registry(error)),
        (None, Some(error)) => Err(error),
        (None, None) => Ok(candidates.observations),
    }
}

/// The contents of an emission's result.
pub open spec fn emission_view<E>(result: Result<Vec<FeatureObservation>, E>) -> Result<
    Seq<FeatureObservation>,
    E,
> {
    match result {
        Ok(observations) => Ok(observations@),
        Err(error) => Err(error),
    }
}

impl<E> Candidates<E> {
    pub(crate) fn new(observations: Vec<FeatureObservation>, stopped: Option<E>) -> (candidates:
        Self)
        ensures
            candidates@.observations == observations@,
            candidates@.stopped == stopped,
    {
        Self { observations, stopped }
    }

    /// The observations to put to the registry, in order.
    pub fn observations(&self) -> (observations: &Vec<FeatureObservation>)
        ensures
            observations@ == self@.observations,
    {
        &self.observations
    }

    /// The failure of the datum behind the last observation, if one failed.
    pub fn stopped(&self) -> (stopped: &Option<E>)
        ensures
            *stopped == self@.stopped,
    {
        &self.stopped
    }
}

impl<E: EmissionError> Candidates<E> {
    /// What is emitted under the registry's verdicts, one for each observation.
    pub fn emitted(self, verdicts: &Vec<Verdict>) -> (result: Result<Vec<FeatureObservation>, E>)
        requires
            verdicts@.len() == self@.observations.len(),
        ensures
            emission_view(result) == emission(self@, verdicts@),
    {
        let mut i: usize = 0;
        proof {
            assert(verdicts@.skip(0) =~= verdicts@);
        }
        while i < verdicts.len()
            invariant
                i <= verdicts@.len(),
                first_refusal(verdicts@) == first_refusal(verdicts@.skip(i as int)),
            decreases verdicts.len() - i,
        {
            proof {
                assert(verdicts@.skip(i as int).drop_first() =~= verdicts@.skip(i + 1));
            }
            match verdicts[i] {
                Err(error) => {
                    return Err(E::from_registry(error));
                },
                Ok(()) => {},
            }
            i += 1;
        }
        match self.stopped {
            Some(error) => Err(error),
            None => Ok(self.observations),
        }
    }
}

/// Candidates are emitted where no datum failed and the registry refuses none of them, and only
/// there; what is emitted is the candidates themselves.
pub proof fn lemma_only_admitted_candidates_are_emitted<E: EmissionError>(
    candidates: CandidatesView<E>,
    verdicts: Seq<Verdict>,
)
    requires
        verdicts.len() == candidates.observations.len(),
    ensures
        emission(candidates, verdicts) is Ok <==> candidates.stopped is None && forall|i: int|
            0 <= i < verdicts.len() ==> (#[trigger] verdicts[i]) is Ok,
        emission(candidates, verdicts) is Ok ==> emission(candidates, verdicts)->Ok_0
            == candidates.observations,
{
    lemma_refusals_are_found(verdicts);
}

proof fn lemma_refusals_are_found(verdicts: Seq<Verdict>)
    ensures
        first_refusal(verdicts) is None <==> forall|i: int|
            0 <= i < verdicts.len() ==> (#[trigger] verdicts[i]) is Ok,
    decreases verdicts.len(),
{
    if verdicts.len() > 0 {
        let rest = verdicts.drop_first();
        lemma_refusals_are_found(rest);
        assert forall|i: int|
            first_refusal(verdicts) is None && 0 <= i < verdicts.len() implies (
        #[trigger] verdicts[i]) is Ok by {
            if i > 0 {
                assert(rest[i - 1] == verdicts[i]);
            }
        }
    }
}

/// The registry's refusal of an emission is that of the first observation that it refuses, and it
/// comes before the failure of any later datum.
pub proof fn lemma_the_first_refusal_stands<E: EmissionError>(
    candidates: CandidatesView<E>,
    verdicts: Seq<Verdict>,
    i: int,
)
    requires
        0 <= i < verdicts.len(),
        verdicts[i] is Err,
        forall|k: int| 0 <= k < i ==> (#[trigger] verdicts[k]) is Ok,
    ensures
        emission(candidates, verdicts) == Err::<Seq<FeatureObservation>, E>(
            E::of_registry(verdicts[i]->Err_0),
        ),
{
    lemma_first_refusal(verdicts, i);
}

proof fn lemma_first_refusal(verdicts: Seq<Verdict>, i: int)
    requires
        0 <= i < verdicts.len(),
        verdicts[i] is Err,
        forall|k: int| 0 <= k < i ==> (#[trigger] verdicts[k]) is Ok,
    ensures
        first_refusal(verdicts) == Some(verdicts[i]->Err_0),
    decreases i,
{
    if i > 0 {
        let rest = verdicts.drop_first();
        assert(verdicts[0] is Ok);
        assert forall|k: int| 0 <= k < i - 1 implies (#[trigger] rest[k]) is Ok by {
            assert(rest[k] == verdicts[k + 1]);
        }
        lemma_first_refusal(rest, i - 1);
    }
}

} // verus!

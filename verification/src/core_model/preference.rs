//! Preferences between two Tasks or two Objectives.
use vstd::prelude::*;

use crate::errors::UbuError;
use crate::id_registry::ObjectType;
use crate::ids::{id_object_type, UbuId};
use crate::provenance::Provenance;
use crate::time::UbuTimestamp;

verus! {

/// Exactly one complete pair of Task ids or of Objective ids.
#[derive(Debug, PartialEq, Eq)]
pub enum PreferenceSubjects {
    Tasks { a: UbuId, b: UbuId },
    Objectives { a: UbuId, b: UbuId },
}

#[derive(Debug, Clone, Copy, PartialEq, Eq, Structural)]
pub enum PreferenceOrder {
    APreferredToB,
    AIndifferentToB,
}

#[derive(Debug, Clone, Copy, PartialEq, Eq, Structural)]
pub enum PreferenceAcquiredMethod {
    UserDefined,
    LlmEstimated,
}

#[derive(Debug, PartialEq)]
pub struct Preference {
    pub id: UbuId,
    pub subjects: PreferenceSubjects,
    pub order: PreferenceOrder,
    pub acquired_method: PreferenceAcquiredMethod,
    pub acquired_date: UbuTimestamp,
    pub enabled: bool,
    pub provenance: Provenance,
}

pub open spec fn subject_pair(s: PreferenceSubjects) -> (Seq<char>, Seq<char>, ObjectType) {
    match s {
        PreferenceSubjects::Tasks { a, b } => (a@, b@, ObjectType::Task),
        PreferenceSubjects::Objectives { a, b } => (a@, b@, ObjectType::Objective),
    }
}

/// The four optional subject fields of the wire form, read as subjects:
/// exactly the two Task fields or exactly the two Objective fields.
pub open spec fn subjects_from_fields(
    task_a: Option<UbuId>,
    task_b: Option<UbuId>,
    objective_a: Option<UbuId>,
    objective_b: Option<UbuId>,
) -> Result<PreferenceSubjects, UbuError> {
    match (task_a, task_b, objective_a, objective_b) {
        (Some(a), Some(b), None, None) => Ok(PreferenceSubjects::Tasks { a, b }),
        (None, None, Some(a), Some(b)) => Ok(PreferenceSubjects::Objectives { a, b }),
        _ => Err(UbuError::InvalidPreferenceSubjects),
    }
}

/// The wire fields `(task_a, task_b, objective_a, objective_b)` of subjects.
pub open spec fn subject_fields(s: PreferenceSubjects) -> (
    Option<UbuId>,
    Option<UbuId>,
    Option<UbuId>,
    Option<UbuId>,
) {
    match s {
        PreferenceSubjects::Tasks { a, b } => (Some(a), Some(b), None, None),
        PreferenceSubjects::Objectives { a, b } => (None, None, Some(a), Some(b)),
    }
}

impl PreferenceSubjects {
    /// Subjects from the wire fields; any other combination is refused.
    pub fn from_fields(
        task_a: Option<UbuId>,
        task_b: Option<UbuId>,
        objective_a: Option<UbuId>,
        objective_b: Option<UbuId>,
    ) -> (r: Result<PreferenceSubjects, UbuError>)
        ensures
            r == subjects_from_fields(task_a, task_b, objective_a, objective_b),
    {
        match (task_a, task_b, objective_a, objective_b) {
            (Some(a), Some(b), None, None) => Ok(PreferenceSubjects::Tasks { a, b }),
            (None, None, Some(a), Some(b)) => Ok(PreferenceSubjects::Objectives { a, b }),
            _ => Err(UbuError::InvalidPreferenceSubjects),
        }
    }

    /// The wire fields `(task_a, task_b, objective_a, objective_b)`.
    pub fn into_fields(self) -> (r: (Option<UbuId>, Option<UbuId>, Option<UbuId>, Option<UbuId>))
        ensures
            r == subject_fields(self),
    {
        match self {
            PreferenceSubjects::Tasks { a, b } => (Some(a), Some(b), None, None),
            PreferenceSubjects::Objectives { a, b } => (None, None, Some(a), Some(b)),
        }
    }
}

/// Writing subjects to the wire fields and reading them back gives the same
/// subjects.
pub proof fn lemma_subject_fields_round_trip(s: PreferenceSubjects)
    ensures
        ({
            let (ta, tb, oa, ob) = subject_fields(s);
            subjects_from_fields(ta, tb, oa, ob) == Ok::<PreferenceSubjects, UbuError>(s)
        }),
{
}

impl Preference {
    /// The id must name a Preference, both subjects the pair's kind, and the
    /// subjects must differ.
    pub fn validate(&self) -> (r: Result<(), UbuError>)
        ensures
            ({
                let (a, b, kind) = subject_pair(self.subjects);
                &&& r is Ok <==> (id_object_type(self.id@) == ObjectType::Preference && id_object_type(a) == kind
                    && id_object_type(b) == kind && a != b)
                &&& id_object_type(self.id@) != ObjectType::Preference ==> (r matches Err(UbuError::WrongIdObjectType { .. }))
                &&& id_object_type(self.id@) == ObjectType::Preference && (id_object_type(a) != kind || id_object_type(b) != kind)
                    ==> r == Err::<(), UbuError>(UbuError::InvalidPreferenceSubjects)
                &&& id_object_type(self.id@) == ObjectType::Preference && id_object_type(a) == kind && id_object_type(b) == kind
                    && a == b ==> r == Err::<(), UbuError>(UbuError::PreferenceSelfRelation)
            }),
    {
        self.id.require_object_type(ObjectType::Preference)?;
        let (a, b, kind) = match &self.subjects {
            PreferenceSubjects::Tasks { a, b } => (a, b, ObjectType::Task),
            PreferenceSubjects::Objectives { a, b } => (a, b, ObjectType::Objective),
        };
        if a.require_object_type(kind).is_err() || b.require_object_type(kind).is_err() {
            return Err(UbuError::InvalidPreferenceSubjects);
        }
        if a.same_as(b) {
            return Err(UbuError::PreferenceSelfRelation);
        }
        Ok(())
    }
}

} // verus!

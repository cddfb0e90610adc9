//! Objectives, one-time or evergreen routines.
use vstd::prelude::*;

use crate::core_model::routine::{
    objective_fields_outcome, schedule_outcome, template_outcome, validate_objective_routine_fields,
    ObjectiveMode, RecurrenceSchedule, RoutineInstanceTemplate,
};
use crate::errors::{then_check, UbuError};
use crate::ids::UbuId;
use crate::provenance::Provenance;

verus! {

#[derive(Debug, Clone, Copy, PartialEq, Eq, Hash, Structural)]
pub enum ObjectiveStatus {
    Open,
    Active,
    Satisfied,
    Abandoned,
}

#[non_exhaustive]
#[derive(Debug, PartialEq)]
pub struct Objective {
    pub id: UbuId,
    pub title: String,
    pub description: Option<String>,
    pub status: ObjectiveStatus,
    pub priority: Option<i64>,
    pub mode: ObjectiveMode,
    pub recurrence: Option<RecurrenceSchedule>,
    pub routine_instance_template: Option<RoutineInstanceTemplate>,
    pub provenance: Provenance,
}

/// Every rule of an Objective, in the order they are checked.
pub open spec fn objective_outcome(o: Objective) -> Result<(), UbuError> {
    then_check(
        match o.recurrence {
            Some(s) => schedule_outcome(s),
            None => Ok(()),
        },
        then_check(
            match o.routine_instance_template {
                Some(t) => template_outcome(t),
                None => Ok(()),
            },
            objective_fields_outcome(
                o.id@,
                o.mode,
                o.recurrence is Some,
                match o.routine_instance_template {
                    Some(t) => Some(&t),
                    None => None,
                },
                o.priority is Some,
            ),
        ),
    )
}

impl Objective {
    /// A one-time Objective without routine fields.
    pub fn new(id: UbuId, title: String, status: ObjectiveStatus, provenance: Provenance) -> (r: Objective)
        ensures
            r.id == id,
            r.title == title,
            r.status == status,
            r.provenance == provenance,
            r.description is None,
            r.priority is None,
            r.mode == ObjectiveMode::OneTime,
            r.recurrence is None,
            r.routine_instance_template is None,
    {
        Objective {
            id,
            title,
            status,
            provenance,
            description: None,
            priority: None,
            mode: ObjectiveMode::OneTime,
            recurrence: None,
            routine_instance_template: None,
        }
    }

    /// Check the recurrence, the routine template and the cross-field rules.
    pub fn validate(&self) -> (r: Result<(), UbuError>)
        ensures
            r == objective_outcome(*self),
    {
        match &self.recurrence {
            Some(schedule) => {
                schedule.validate()?;
            },
            None => {},
        }
        match &self.routine_instance_template {
            Some(template) => {
                template.validate()?;
            },
            None => {},
        }
        validate_objective_routine_fields(
            &self.id,
            self.mode,
            self.recurrence.as_ref(),
            self.routine_instance_template.as_ref(),
            self.priority.is_some(),
        )
    }
}

} // verus!

//! Convenience entry points over identifier, timestamp and Task lifecycle rules.
use vstd::prelude::*;

use crate::core_model::task::{lifecycle_ok, task_status_wire, Task, TaskStatus};
use crate::errors::UbuError;
use crate::foreign::rfc3339_parse_outcome;
use crate::id_registry::{object_type_name, ObjectType};
use crate::ids::{id_object_type, valid_ubu_id, UbuId};
use crate::time::UbuTimestamp;

verus! {

/// Parse an identifier.
pub fn validate_id(value: &str) -> (r: Result<UbuId, UbuError>)
    ensures
        r is Ok <==> valid_ubu_id(value@),
        r matches Ok(id) ==> id@ == value@,
{
    UbuId::parse(value)
}

/// Parse an identifier and require its object type.
pub fn validate_id_for_type(value: &str, object_type: ObjectType) -> (r: Result<UbuId, UbuError>)
    ensures
        r is Ok <==> valid_ubu_id(value@) && id_object_type(value@) == object_type,
        r matches Ok(id) ==> id@ == value@,
        valid_ubu_id(value@) && id_object_type(value@) != object_type ==> (r matches Err(
            UbuError::WrongIdObjectType { id, expected, actual },
        ) && id@ == value@ && expected@ == object_type_name(object_type) && actual@ == object_type_name(
            id_object_type(value@),
        )),
{
    let id = UbuId::parse(value)?;
    id.require_object_type(object_type)?;
    Ok(id)
}

/// Parse an RFC 3339 timestamp.
pub fn validate_timestamp(value: &str) -> (r: Result<UbuTimestamp, UbuError>)
    ensures
        r is Ok <==> rfc3339_parse_outcome(value@) is Some,
        r matches Ok(t) ==> rfc3339_parse_outcome(value@) == Some(t@),
{
    UbuTimestamp::parse(value)
}

/// The lifecycle rule of a Task: `moot` requires a reason code; every other
/// status forbids one.
pub fn validate_task_lifecycle(task: &Task) -> (r: Result<(), UbuError>)
    ensures
        r is Ok <==> lifecycle_ok(task.status, task.moot_reason_code),
        task.status == TaskStatus::Moot && task.moot_reason_code is None ==> r == Err::<(), UbuError>(UbuError::MissingMootReasonCode),
        task.status != TaskStatus::Moot && task.moot_reason_code is Some ==> (r matches Err(
            UbuError::UnexpectedMootReasonCode { status: s },
        ) && s@ == task_status_wire(task.status)),
{
    match (task.status, task.moot_reason_code) {
        (TaskStatus::Moot, None) => Err(UbuError::MissingMootReasonCode),
        (TaskStatus::Moot, Some(_)) => Ok(()),
        (status, Some(_)) => Err(UbuError::UnexpectedMootReasonCode { status: status.as_str() }),
        (_, None) => Ok(()),
    }
}

} // verus!

//! Validation of the tagged protocol messages (`ClientMessage`), including
//! the uniqueness of the meet ID of a new meet.
use crate::json::{json_reading, parse_json};
use crate::messages::{ClientMessage, Update};
use crate::text::push_str;
use crate::validation::{
    email_failure, first_of, flagged, is_meet_id_unique, location_failure, meet_id_failure,
    password_failure, reports, token_failure, validate_email, validate_location_name,
    validate_meet_id, validate_password, validate_session_token, Failure, MeetIdRegistry,
    ValidationError, ValidationResult,
};
use vstd::prelude::*;

verus! {

/// The detail with which an update is refused, or `None` when it is accepted:
/// a non-empty location, a positive timestamp and a value that parses as JSON.
pub open spec fn update_problem(u: Update) -> Option<Seq<char>> {
    if u.location@.len() == 0 {
        Some("Update location must not be empty"@)
    } else if u.timestamp <= 0 {
        Some("Update timestamp must be positive"@)
    } else {
        match json_reading(u.value@) {
            Ok(_) => None,
            Err(e) => Some("Invalid JSON in update value: "@ + e),
        }
    }
}

/// Validates an update of the tagged protocol.
pub fn validate_update(update: &Update) -> (res: ValidationResult<()>)
    ensures
        match update_problem(*update) {
            None => res is Ok,
            Some(m) => res matches Err(ValidationError::InvalidUpdate(d)) && d@ == m,
        },
{
    if update.location.as_str().is_empty() {
        return Err(ValidationError::InvalidUpdate("Update location must not be empty".to_string()));
    }
    if update.timestamp <= 0 {
        return Err(ValidationError::InvalidUpdate("Update timestamp must be positive".to_string()));
    }
    match parse_json(update.value.as_str()) {
        Ok(_) => Ok(()),
        Err(e) => {
            let mut m = "Invalid JSON in update value: ".to_string();
            push_str(&mut m, e.as_str());
            Err(ValidationError::InvalidUpdate(m))
        },
    }
}

/// How an update is refused, if it is.
pub open spec fn update_failure(u: Update) -> Option<Failure> {
    flagged("InvalidUpdate"@, "Invalid update: "@, update_problem(u))
}

/// The first refused update, in order.
pub open spec fn updates_failure(us: Seq<Update>) -> Option<Failure>
    decreases us.len(),
{
    if us.len() == 0 {
        None
    } else {
        first_of(updates_failure(us.drop_last()), update_failure(us.last()))
    }
}

proof fn lemma_first_failure_sticks(us: Seq<Update>, k: int)
    requires
        0 < k <= us.len(),
        updates_failure(us.take(k)) is Some,
    ensures
        updates_failure(us) == updates_failure(us.take(k)),
    decreases us.len() - k,
{
    if k < us.len() {
        assert(us.take(k + 1).drop_last() == us.take(k));
        assert(updates_failure(us.take(k + 1)) == updates_failure(us.take(k)));
        lemma_first_failure_sticks(us, k + 1);
    } else {
        assert(us.take(k) == us);
    }
}

fn validate_updates(updates: &Vec<Update>) -> (res: ValidationResult<()>)
    ensures
        reports(res, updates_failure(updates@)),
{
    let mut i: usize = 0;
    while i < updates.len()
        invariant
            i <= updates@.len(),
            updates_failure(updates@.take(i as int)) is None,
        decreases updates@.len() - i,
    {
        let r = validate_update(&updates[i]);
        assert(updates@.take(i + 1).drop_last() == updates@.take(i as int));
        match r {
            Err(e) => {
                proof {
                    lemma_first_failure_sticks(updates@, i as int + 1);
                }
                return Err(e);
            },
            Ok(_) => {},
        }
        i = i + 1;
    }
    assert(updates@.take(updates@.len() as int) == updates@);
    Ok(())
}

/// The refusal of a meet ID that is already in use.
pub open spec fn duplicate_failure(registry: Set<Seq<char>>, meet_id: Seq<char>) -> Option<Failure> {
    if registry.contains(meet_id) {
        Some(("MeetIdExists"@, "Meet ID already exists: "@, "Meet ID '"@ + meet_id + "' already exists"@))
    } else {
        None
    }
}

/// How a tagged message is refused: its fields are checked in order and the
/// first refusal is reported; a new meet's ID must not be in `registry`.
pub open spec fn client_message_failure(m: ClientMessage, registry: Set<Seq<char>>) -> Option<Failure> {
    match m {
        ClientMessage::CreateMeet { meet_id, password, location_name, .. } => first_of(
            meet_id_failure(meet_id@),
            first_of(
                duplicate_failure(registry, meet_id@),
                first_of(password_failure(password@), location_failure(location_name@)),
            ),
        ),
        ClientMessage::JoinMeet { meet_id, password, location_name, .. } => first_of(
            meet_id_failure(meet_id@),
            first_of(password_failure(password@), location_failure(location_name@)),
        ),
        ClientMessage::UpdateInit { meet_id, session_token, updates } => first_of(
            meet_id_failure(meet_id@),
            first_of(token_failure(session_token@), updates_failure(updates@)),
        ),
        ClientMessage::ClientPull { meet_id, session_token, .. } => first_of(
            meet_id_failure(meet_id@),
            token_failure(session_token@),
        ),
        ClientMessage::PublishMeet { meet_id, session_token, return_email, opl_csv } => first_of(
            meet_id_failure(meet_id@),
            first_of(
                token_failure(session_token@),
                first_of(
                    email_failure(return_email@),
                    if opl_csv@.len() == 0 {
                        Some(("InvalidCsvData"@, "Invalid CSV data: "@, "CSV data must not be empty"@))
                    } else {
                        None
                    },
                ),
            ),
        ),
        ClientMessage::StateRecoveryResponse { meet_id, session_token, updates, .. } => first_of(
            meet_id_failure(meet_id@),
            first_of(token_failure(session_token@), updates_failure(updates@)),
        ),
    }
}

/// Validates every field of a tagged message; the first refusal is returned.
pub fn validate_client_message(message: &ClientMessage, registry: &MeetIdRegistry) -> (res:
    ValidationResult<()>)
    ensures
        reports(res, client_message_failure(*message, registry@)),
{
    match message {
        ClientMessage::CreateMeet { meet_id, password, location_name, .. } => {
            validate_meet_id(meet_id.as_str())?;
            if !is_meet_id_unique(registry, meet_id.as_str()) {
                let mut m = "Meet ID '".to_string();
                push_str(&mut m, meet_id.as_str());
                push_str(&mut m, "' already exists");
                return Err(ValidationError::MeetIdExists(m));
            }
            validate_password(password.as_str())?;
            validate_location_name(location_name.as_str())?;
            Ok(())
        },
        ClientMessage::JoinMeet { meet_id, password, location_name, .. } => {
            validate_meet_id(meet_id.as_str())?;
            validate_password(password.as_str())?;
            validate_location_name(location_name.as_str())?;
            Ok(())
        },
        ClientMessage::UpdateInit { meet_id, session_token, updates } => {
            validate_meet_id(meet_id.as_str())?;
            validate_session_token(session_token.as_str())?;
            validate_updates(updates)
        },
        ClientMessage::ClientPull { meet_id, session_token, .. } => {
            validate_meet_id(meet_id.as_str())?;
            validate_session_token(session_token.as_str())?;
            Ok(())
        },
        ClientMessage::PublishMeet { meet_id, session_token, return_email, opl_csv } => {
            validate_meet_id(meet_id.as_str())?;
            validate_session_token(session_token.as_str())?;
            validate_email(return_email.as_str())?;
            if opl_csv.as_str().is_empty() {
                return Err(ValidationError::InvalidCsvData("CSV data must not be empty".to_string()));
            }
            Ok(())
        },
        ClientMessage::StateRecoveryResponse { meet_id, session_token, updates, .. } => {
            validate_meet_id(meet_id.as_str())?;
            validate_session_token(session_token.as_str())?;
            validate_updates(updates)
        },
    }
}

} // verus!

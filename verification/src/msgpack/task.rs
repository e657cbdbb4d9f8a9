//! Tasks.

use crate::error::Error;
use crate::error::Failure;
use crate::io::FromData;
use crate::io::ToData;
use crate::msgpack::blob_or;
use crate::msgpack::bytes_of;
use crate::msgpack::field;
use crate::msgpack::get_blob;
use crate::msgpack::get_integer;
use crate::msgpack::get_pairs;
use crate::msgpack::get_text;
use crate::msgpack::integer_or;
use crate::msgpack::malformed;
use crate::msgpack::pairs_or_empty;
use crate::msgpack::pairs_payload;
use crate::msgpack::pairs_view;
use crate::msgpack::parse_map;
use crate::msgpack::parse_str;
use crate::msgpack::read_str;
use crate::msgpack::rmp_bin;
use crate::msgpack::rmp_map_len;
use crate::msgpack::rmp_sint;
use crate::msgpack::rmp_str;
use crate::msgpack::text_or_empty;
use crate::msgpack::write_bin;
use crate::msgpack::write_map_len;
use crate::msgpack::write_pairs;
use crate::msgpack::write_sint;
use crate::msgpack::write_str;
use crate::msgpack::Field;
use crate::msgpack::MapReader;
use crate::msgpack::NIL;
use crate::msgpack::Pair;
use vstd::prelude::*;

verus! {

/// The states of a task.
#[derive(Debug, PartialEq, Eq, Clone, Copy, Structural)]
pub enum TaskState {
    Create,
    Created,
    Lock,
    Locked,
    LockRejected,
    Complete,
    Completed,
    CompleteRejected,
    ExpireLock,
    LockExpired,
    LockExpirationRejected,
    Fail,
    Failed,
    FailRejected,
    UpdateRetries,
    RetriesUpdated,
    UpdateRetriesRejected,
    Cancel,
    Canceled,
    CancelRejected,
}

impl TaskState {
    /// The name of the state on the wire.
    pub open spec fn name(&self) -> Seq<char> {
        match *self {
            TaskState::Create => "CREATE"@,
            TaskState::Created => "CREATED"@,
            TaskState::Lock => "LOCK"@,
            TaskState::Locked => "LOCKED"@,
            TaskState::LockRejected => "LOCK_REJECTED"@,
            TaskState::Complete => "COMPLETE"@,
            TaskState::Completed => "COMPLETED"@,
            TaskState::CompleteRejected => "COMPLETE_REJECTED"@,
            TaskState::ExpireLock => "EXPIRE_LOCK"@,
            TaskState::LockExpired => "LOCK_EXPIRED"@,
            TaskState::LockExpirationRejected => "LOCK_EXPIRATION_REJECTED"@,
            TaskState::Fail => "FAIL"@,
            TaskState::Failed => "FAILED"@,
            TaskState::FailRejected => "FAIL_REJECTED"@,
            TaskState::UpdateRetries => "UPDATE_RETRIES"@,
            TaskState::RetriesUpdated => "RETRIES_UPDATED"@,
            TaskState::UpdateRetriesRejected => "UPDATE_RETRIES_REJECTED"@,
            TaskState::Cancel => "CANCEL"@,
            TaskState::Canceled => "CANCELED"@,
            TaskState::CancelRejected => "CANCEL_REJECTED"@,
        }
    }

    /// The state that `name` names.
    pub open spec fn of_name(name: Seq<char>) -> Option<TaskState> {
        if name == "CREATE"@ {
            Some(TaskState::Create)
        } else if name == "CREATED"@ {
            Some(TaskState::Created)
        } else if name == "LOCK"@ {
            Some(TaskState::Lock)
        } else if name == "LOCKED"@ {
            Some(TaskState::Locked)
        } else if name == "LOCK_REJECTED"@ {
            Some(TaskState::LockRejected)
        } else if name == "COMPLETE"@ {
            Some(TaskState::Complete)
        } else if name == "COMPLETED"@ {
            Some(TaskState::Completed)
        } else if name == "COMPLETE_REJECTED"@ {
            Some(TaskState::CompleteRejected)
        } else if name == "EXPIRE_LOCK"@ {
            Some(TaskState::ExpireLock)
        } else if name == "LOCK_EXPIRED"@ {
            Some(TaskState::LockExpired)
        } else if name == "LOCK_EXPIRATION_REJECTED"@ {
            Some(TaskState::LockExpirationRejected)
        } else if name == "FAIL"@ {
            Some(TaskState::Fail)
        } else if name == "FAILED"@ {
            Some(TaskState::Failed)
        } else if name == "FAIL_REJECTED"@ {
            Some(TaskState::FailRejected)
        } else if name == "UPDATE_RETRIES"@ {
            Some(TaskState::UpdateRetries)
        } else if name == "RETRIES_UPDATED"@ {
            Some(TaskState::RetriesUpdated)
        } else if name == "UPDATE_RETRIES_REJECTED"@ {
            Some(TaskState::UpdateRetriesRejected)
        } else if name == "CANCEL"@ {
            Some(TaskState::Cancel)
        } else if name == "CANCELED"@ {
            Some(TaskState::Canceled)
        } else if name == "CANCEL_REJECTED"@ {
            Some(TaskState::CancelRejected)
        } else {
            None
        }
    }

    /// The name of the state on the wire.
    pub fn as_str(&self) -> (name: &'static str)
        ensures
            name@ == self.name(),
    {
        match *self {
            TaskState::Create => "CREATE",
            TaskState::Created => "CREATED",
            TaskState::Lock => "LOCK",
            TaskState::Locked => "LOCKED",
            TaskState::LockRejected => "LOCK_REJECTED",
            TaskState::Complete => "COMPLETE",
            TaskState::Completed => "COMPLETED",
            TaskState::CompleteRejected => "COMPLETE_REJECTED",
            TaskState::ExpireLock => "EXPIRE_LOCK",
            TaskState::LockExpired => "LOCK_EXPIRED",
            TaskState::LockExpirationRejected => "LOCK_EXPIRATION_REJECTED",
            TaskState::Fail => "FAIL",
            TaskState::Failed => "FAILED",
            TaskState::FailRejected => "FAIL_REJECTED",
            TaskState::UpdateRetries => "UPDATE_RETRIES",
            TaskState::RetriesUpdated => "RETRIES_UPDATED",
            TaskState::UpdateRetriesRejected => "UPDATE_RETRIES_REJECTED",
            TaskState::Cancel => "CANCEL",
            TaskState::Canceled => "CANCELED",
            TaskState::CancelRejected => "CANCEL_REJECTED",
        }
    }

    /// The state that `name` names.
    ///
    /// Fails with `UnknownState`, which holds `name`, when `name` is not in
    /// the vocabulary.
    pub fn from_name(name: &str) -> (r: Result<TaskState, Error>)
        ensures
            match r {
                Ok(state) => Self::of_name(name@) == Some(state),
                Err(error) => Self::of_name(name@) is None && Failure::UnknownState(
                    name@,
                ).reported_by(error),
            },
    {
        let text = String::from_str(name);
        if text == String::from_str("CREATE") {
            Ok(TaskState::Create)
        } else if text == String::from_str("CREATED") {
            Ok(TaskState::Created)
        } else if text == String::from_str("LOCK") {
            Ok(TaskState::Lock)
        } else if text == String::from_str("LOCKED") {
            Ok(TaskState::Locked)
        } else if text == String::from_str("LOCK_REJECTED") {
            Ok(TaskState::LockRejected)
        } else if text == String::from_str("COMPLETE") {
            Ok(TaskState::Complete)
        } else if text == String::from_str("COMPLETED") {
            Ok(TaskState::Completed)
        } else if text == String::from_str("COMPLETE_REJECTED") {
            Ok(TaskState::CompleteRejected)
        } else if text == String::from_str("EXPIRE_LOCK") {
            Ok(TaskState::ExpireLock)
        } else if text == String::from_str("LOCK_EXPIRED") {
            Ok(TaskState::LockExpired)
        } else if text == String::from_str("LOCK_EXPIRATION_REJECTED") {
            Ok(TaskState::LockExpirationRejected)
        } else if text == String::from_str("FAIL") {
            Ok(TaskState::Fail)
        } else if text == String::from_str("FAILED") {
            Ok(TaskState::Failed)
        } else if text == String::from_str("FAIL_REJECTED") {
            Ok(TaskState::FailRejected)
        } else if text == String::from_str("UPDATE_RETRIES") {
            Ok(TaskState::UpdateRetries)
        } else if text == String::from_str("RETRIES_UPDATED") {
            Ok(TaskState::RetriesUpdated)
        } else if text == String::from_str("UPDATE_RETRIES_REJECTED") {
            Ok(TaskState::UpdateRetriesRejected)
        } else if text == String::from_str("CANCEL") {
            Ok(TaskState::Cancel)
        } else if text == String::from_str("CANCELED") {
            Ok(TaskState::Canceled)
        } else if text == String::from_str("CANCEL_REJECTED") {
            Ok(TaskState::CancelRejected)
        } else {
            Err(Error::UnknownState(text))
        }
    }

    /// The state of an optional field: the default where the field is
    /// missing, a failure where its value is no string or no name of a state.
    pub open spec fn or_default(value: Option<Seq<u8>>, default: TaskState)
        -> Result<TaskState, Failure> {
        match value {
            None => Ok(default),
            Some(bytes) => match parse_str(bytes) {
                None => Err(Failure::Malformed),
                Some((name, _)) => match Self::of_name(name) {
                    Some(state) => Ok(state),
                    None => Err(Failure::UnknownState(name)),
                },
            },
        }
    }

    /// Reads the state of an optional field.
    pub fn read(value: Option<&[u8]>, default: TaskState) -> (r: Result<TaskState, Error>)
        ensures
            match r {
                Ok(state) => Self::or_default(bytes_of(value), default)
                    == Ok::<TaskState, Failure>(state),
                Err(error) => Self::or_default(bytes_of(value), default) matches Err(failure)
                    && failure.reported_by(error),
            },
    {
        match value {
            None => Ok(default),
            Some(bytes) => match read_str(bytes) {
                None => Err(malformed()),
                Some((name, _)) => Self::from_name(name.as_str()),
            },
        }
    }

    /// Every state is the state that its name names.
    pub proof fn lemma_name_names_state(self)
        ensures
            Self::of_name(self.name()) == Some(self),
    {
        reveal_strlit("CREATE");
        reveal_strlit("CREATED");
        reveal_strlit("LOCK");
        reveal_strlit("LOCKED");
        reveal_strlit("LOCK_REJECTED");
        reveal_strlit("COMPLETE");
        reveal_strlit("COMPLETED");
        reveal_strlit("COMPLETE_REJECTED");
        reveal_strlit("EXPIRE_LOCK");
        reveal_strlit("LOCK_EXPIRED");
        reveal_strlit("LOCK_EXPIRATION_REJECTED");
        reveal_strlit("FAIL");
        reveal_strlit("FAILED");
        reveal_strlit("FAIL_REJECTED");
        reveal_strlit("UPDATE_RETRIES");
        reveal_strlit("RETRIES_UPDATED");
        reveal_strlit("UPDATE_RETRIES_REJECTED");
        reveal_strlit("CANCEL");
        reveal_strlit("CANCELED");
        reveal_strlit("CANCEL_REJECTED");
        match self {
            TaskState::Create => {},
            TaskState::Created => {
                assert("CREATE"@.len() != "CREATED"@.len());
            },
            TaskState::Lock => {
                assert("CREATE"@.len() != "LOCK"@.len());
                assert("CREATED"@.len() != "LOCK"@.len());
            },
            TaskState::Locked => {
                assert("CREATE"@[0] != "LOCKED"@[0]);
                assert("CREATED"@.len() != "LOCKED"@.len());
                assert("LOCK"@.len() != "LOCKED"@.len());
            },
            TaskState::LockRejected => {
                assert("CREATE"@.len() != "LOCK_REJECTED"@.len());
                assert("CREATED"@.len() != "LOCK_REJECTED"@.len());
                assert("LOCK"@.len() != "LOCK_REJECTED"@.len());
                assert("LOCKED"@.len() != "LOCK_REJECTED"@.len());
            },
            TaskState::Complete => {
                assert("CREATE"@.len() != "COMPLETE"@.len());
                assert("CREATED"@.len() != "COMPLETE"@.len());
                assert("LOCK"@.len() != "COMPLETE"@.len());
                assert("LOCKED"@.len() != "COMPLETE"@.len());
                assert("LOCK_REJECTED"@.len() != "COMPLETE"@.len());
            },
            TaskState::Completed => {
                assert("CREATE"@.len() != "COMPLETED"@.len());
                assert("CREATED"@.len() != "COMPLETED"@.len());
                assert("LOCK"@.len() != "COMPLETED"@.len());
                assert("LOCKED"@.len() != "COMPLETED"@.len());
                assert("LOCK_REJECTED"@.len() != "COMPLETED"@.len());
                assert("COMPLETE"@.len() != "COMPLETED"@.len());
            },
            TaskState::CompleteRejected => {
                assert("CREATE"@.len() != "COMPLETE_REJECTED"@.len());
                assert("CREATED"@.len() != "COMPLETE_REJECTED"@.len());
                assert("LOCK"@.len() != "COMPLETE_REJECTED"@.len());
                assert("LOCKED"@.len() != "COMPLETE_REJECTED"@.len());
                assert("LOCK_REJECTED"@.len() != "COMPLETE_REJECTED"@.len());
                assert("COMPLETE"@.len() != "COMPLETE_REJECTED"@.len());
                assert("COMPLETED"@.len() != "COMPLETE_REJECTED"@.len());
            },
            TaskState::ExpireLock => {
                assert("CREATE"@.len() != "EXPIRE_LOCK"@.len());
                assert("CREATED"@.len() != "EXPIRE_LOCK"@.len());
                assert("LOCK"@.len() != "EXPIRE_LOCK"@.len());
                assert("LOCKED"@.len() != "EXPIRE_LOCK"@.len());
                assert("LOCK_REJECTED"@.len() != "EXPIRE_LOCK"@.len());
                assert("COMPLETE"@.len() != "EXPIRE_LOCK"@.len());
                assert("COMPLETED"@.len() != "EXPIRE_LOCK"@.len());
                assert("COMPLETE_REJECTED"@.len() != "EXPIRE_LOCK"@.len());
            },
            TaskState::LockExpired => {
                assert("CREATE"@.len() != "LOCK_EXPIRED"@.len());
                assert("CREATED"@.len() != "LOCK_EXPIRED"@.len());
                assert("LOCK"@.len() != "LOCK_EXPIRED"@.len());
                assert("LOCKED"@.len() != "LOCK_EXPIRED"@.len());
                assert("LOCK_REJECTED"@.len() != "LOCK_EXPIRED"@.len());
                assert("COMPLETE"@.len() != "LOCK_EXPIRED"@.len());
                assert("COMPLETED"@.len() != "LOCK_EXPIRED"@.len());
                assert("COMPLETE_REJECTED"@.len() != "LOCK_EXPIRED"@.len());
                assert("EXPIRE_LOCK"@.len() != "LOCK_EXPIRED"@.len());
            },
            TaskState::LockExpirationRejected => {
                assert("CREATE"@.len() != "LOCK_EXPIRATION_REJECTED"@.len());
                assert("CREATED"@.len() != "LOCK_EXPIRATION_REJECTED"@.len());
                assert("LOCK"@.len() != "LOCK_EXPIRATION_REJECTED"@.len());
                assert("LOCKED"@.len() != "LOCK_EXPIRATION_REJECTED"@.len());
                assert("LOCK_REJECTED"@.len() != "LOCK_EXPIRATION_REJECTED"@.len());
                assert("COMPLETE"@.len() != "LOCK_EXPIRATION_REJECTED"@.len());
                assert("COMPLETED"@.len() != "LOCK_EXPIRATION_REJECTED"@.len());
                assert("COMPLETE_REJECTED"@.len() != "LOCK_EXPIRATION_REJECTED"@.len());
                assert("EXPIRE_LOCK"@.len() != "LOCK_EXPIRATION_REJECTED"@.len());
                assert("LOCK_EXPIRED"@.len() != "LOCK_EXPIRATION_REJECTED"@.len());
            },
            TaskState::Fail => {
                assert("CREATE"@.len() != "FAIL"@.len());
                assert("CREATED"@.len() != "FAIL"@.len());
                assert("LOCK"@[0] != "FAIL"@[0]);
                assert("LOCKED"@.len() != "FAIL"@.len());
                assert("LOCK_REJECTED"@.len() != "FAIL"@.len());
                assert("COMPLETE"@.len() != "FAIL"@.len());
                assert("COMPLETED"@.len() != "FAIL"@.len());
                assert("COMPLETE_REJECTED"@.len() != "FAIL"@.len());
                assert("EXPIRE_LOCK"@.len() != "FAIL"@.len());
                assert("LOCK_EXPIRED"@.len() != "FAIL"@.len());
                assert("LOCK_EXPIRATION_REJECTED"@.len() != "FAIL"@.len());
            },
            TaskState::Failed => {
                assert("CREATE"@[0] != "FAILED"@[0]);
                assert("CREATED"@.len() != "FAILED"@.len());
                assert("LOCK"@.len() != "FAILED"@.len());
                assert("LOCKED"@[0] != "FAILED"@[0]);
                assert("LOCK_REJECTED"@.len() != "FAILED"@.len());
                assert("COMPLETE"@.len() != "FAILED"@.len());
                assert("COMPLETED"@.len() != "FAILED"@.len());
                assert("COMPLETE_REJECTED"@.len() != "FAILED"@.len());
                assert("EXPIRE_LOCK"@.len() != "FAILED"@.len());
                assert("LOCK_EXPIRED"@.len() != "FAILED"@.len());
                assert("LOCK_EXPIRATION_REJECTED"@.len() != "FAILED"@.len());
                assert("FAIL"@.len() != "FAILED"@.len());
            },
            TaskState::FailRejected => {
                assert("CREATE"@.len() != "FAIL_REJECTED"@.len());
                assert("CREATED"@.len() != "FAIL_REJECTED"@.len());
                assert("LOCK"@.len() != "FAIL_REJECTED"@.len());
                assert("LOCKED"@.len() != "FAIL_REJECTED"@.len());
                assert("LOCK_REJECTED"@[0] != "FAIL_REJECTED"@[0]);
                assert("COMPLETE"@.len() != "FAIL_REJECTED"@.len());
                assert("COMPLETED"@.len() != "FAIL_REJECTED"@.len());
                assert("COMPLETE_REJECTED"@.len() != "FAIL_REJECTED"@.len());
                assert("EXPIRE_LOCK"@.len() != "FAIL_REJECTED"@.len());
                assert("LOCK_EXPIRED"@.len() != "FAIL_REJECTED"@.len());
                assert("LOCK_EXPIRATION_REJECTED"@.len() != "FAIL_REJECTED"@.len());
                assert("FAIL"@.len() != "FAIL_REJECTED"@.len());
                assert("FAILED"@.len() != "FAIL_REJECTED"@.len());
            },
            TaskState::UpdateRetries => {
                assert("CREATE"@.len() != "UPDATE_RETRIES"@.len());
                assert("CREATED"@.len() != "UPDATE_RETRIES"@.len());
                assert("LOCK"@.len() != "UPDATE_RETRIES"@.len());
                assert("LOCKED"@.len() != "UPDATE_RETRIES"@.len());
                assert("LOCK_REJECTED"@.len() != "UPDATE_RETRIES"@.len());
                assert("COMPLETE"@.len() != "UPDATE_RETRIES"@.len());
                assert("COMPLETED"@.len() != "UPDATE_RETRIES"@.len());
                assert("COMPLETE_REJECTED"@.len() != "UPDATE_RETRIES"@.len());
                assert("EXPIRE_LOCK"@.len() != "UPDATE_RETRIES"@.len());
                assert("LOCK_EXPIRED"@.len() != "UPDATE_RETRIES"@.len());
                assert("LOCK_EXPIRATION_REJECTED"@.len() != "UPDATE_RETRIES"@.len());
                assert("FAIL"@.len() != "UPDATE_RETRIES"@.len());
                assert("FAILED"@.len() != "UPDATE_RETRIES"@.len());
                assert("FAIL_REJECTED"@.len() != "UPDATE_RETRIES"@.len());
            },
            TaskState::RetriesUpdated => {
                assert("CREATE"@.len() != "RETRIES_UPDATED"@.len());
                assert("CREATED"@.len() != "RETRIES_UPDATED"@.len());
                assert("LOCK"@.len() != "RETRIES_UPDATED"@.len());
                assert("LOCKED"@.len() != "RETRIES_UPDATED"@.len());
                assert("LOCK_REJECTED"@.len() != "RETRIES_UPDATED"@.len());
                assert("COMPLETE"@.len() != "RETRIES_UPDATED"@.len());
                assert("COMPLETED"@.len() != "RETRIES_UPDATED"@.len());
                assert("COMPLETE_REJECTED"@.len() != "RETRIES_UPDATED"@.len());
                assert("EXPIRE_LOCK"@.len() != "RETRIES_UPDATED"@.len());
                assert("LOCK_EXPIRED"@.len() != "RETRIES_UPDATED"@.len());
                assert("LOCK_EXPIRATION_REJECTED"@.len() != "RETRIES_UPDATED"@.len());
                assert("FAIL"@.len() != "RETRIES_UPDATED"@.len());
                assert("FAILED"@.len() != "RETRIES_UPDATED"@.len());
                assert("FAIL_REJECTED"@.len() != "RETRIES_UPDATED"@.len());
                assert("UPDATE_RETRIES"@.len() != "RETRIES_UPDATED"@.len());
            },
            TaskState::UpdateRetriesRejected => {
                assert("CREATE"@.len() != "UPDATE_RETRIES_REJECTED"@.len());
                assert("CREATED"@.len() != "UPDATE_RETRIES_REJECTED"@.len());
                assert("LOCK"@.len() != "UPDATE_RETRIES_REJECTED"@.len());
                assert("LOCKED"@.len() != "UPDATE_RETRIES_REJECTED"@.len());
                assert("LOCK_REJECTED"@.len() != "UPDATE_RETRIES_REJECTED"@.len());
                assert("COMPLETE"@.len() != "UPDATE_RETRIES_REJECTED"@.len());
                assert("COMPLETED"@.len() != "UPDATE_RETRIES_REJECTED"@.len());
                assert("COMPLETE_REJECTED"@.len() != "UPDATE_RETRIES_REJECTED"@.len());
                assert("EXPIRE_LOCK"@.len() != "UPDATE_RETRIES_REJECTED"@.len());
                assert("LOCK_EXPIRED"@.len() != "UPDATE_RETRIES_REJECTED"@.len());
                assert("LOCK_EXPIRATION_REJECTED"@.len() != "UPDATE_RETRIES_REJECTED"@.len());
                assert("FAIL"@.len() != "UPDATE_RETRIES_REJECTED"@.len());
                assert("FAILED"@.len() != "UPDATE_RETRIES_REJECTED"@.len());
                assert("FAIL_REJECTED"@.len() != "UPDATE_RETRIES_REJECTED"@.len());
                assert("UPDATE_RETRIES"@.len() != "UPDATE_RETRIES_REJECTED"@.len());
                assert("RETRIES_UPDATED"@.len() != "UPDATE_RETRIES_REJECTED"@.len());
            },
            TaskState::Cancel => {
                assert("CREATE"@[1] != "CANCEL"@[1]);
                assert("CREATED"@.len() != "CANCEL"@.len());
                assert("LOCK"@.len() != "CANCEL"@.len());
                assert("LOCKED"@[0] != "CANCEL"@[0]);
                assert("LOCK_REJECTED"@.len() != "CANCEL"@.len());
                assert("COMPLETE"@.len() != "CANCEL"@.len());
                assert("COMPLETED"@.len() != "CANCEL"@.len());
                assert("COMPLETE_REJECTED"@.len() != "CANCEL"@.len());
                assert("EXPIRE_LOCK"@.len() != "CANCEL"@.len());
                assert("LOCK_EXPIRED"@.len() != "CANCEL"@.len());
                assert("LOCK_EXPIRATION_REJECTED"@.len() != "CANCEL"@.len());
                assert("FAIL"@.len() != "CANCEL"@.len());
                assert("FAILED"@[0] != "CANCEL"@[0]);
                assert("FAIL_REJECTED"@.len() != "CANCEL"@.len());
                assert("UPDATE_RETRIES"@.len() != "CANCEL"@.len());
                assert("RETRIES_UPDATED"@.len() != "CANCEL"@.len());
                assert("UPDATE_RETRIES_REJECTED"@.len() != "CANCEL"@.len());
            },
            TaskState::Canceled => {
                assert("CREATE"@.len() != "CANCELED"@.len());
                assert("CREATED"@.len() != "CANCELED"@.len());
                assert("LOCK"@.len() != "CANCELED"@.len());
                assert("LOCKED"@.len() != "CANCELED"@.len());
                assert("LOCK_REJECTED"@.len() != "CANCELED"@.len());
                assert("COMPLETE"@[1] != "CANCELED"@[1]);
                assert("COMPLETED"@.len() != "CANCELED"@.len());
                assert("COMPLETE_REJECTED"@.len() != "CANCELED"@.len());
                assert("EXPIRE_LOCK"@.len() != "CANCELED"@.len());
                assert("LOCK_EXPIRED"@.len() != "CANCELED"@.len());
                assert("LOCK_EXPIRATION_REJECTED"@.len() != "CANCELED"@.len());
                assert("FAIL"@.len() != "CANCELED"@.len());
                assert("FAILED"@.len() != "CANCELED"@.len());
                assert("FAIL_REJECTED"@.len() != "CANCELED"@.len());
                assert("UPDATE_RETRIES"@.len() != "CANCELED"@.len());
                assert("RETRIES_UPDATED"@.len() != "CANCELED"@.len());
                assert("UPDATE_RETRIES_REJECTED"@.len() != "CANCELED"@.len());
                assert("CANCEL"@.len() != "CANCELED"@.len());
            },
            TaskState::CancelRejected => {
                assert("CREATE"@.len() != "CANCEL_REJECTED"@.len());
                assert("CREATED"@.len() != "CANCEL_REJECTED"@.len());
                assert("LOCK"@.len() != "CANCEL_REJECTED"@.len());
                assert("LOCKED"@.len() != "CANCEL_REJECTED"@.len());
                assert("LOCK_REJECTED"@.len() != "CANCEL_REJECTED"@.len());
                assert("COMPLETE"@.len() != "CANCEL_REJECTED"@.len());
                assert("COMPLETED"@.len() != "CANCEL_REJECTED"@.len());
                assert("COMPLETE_REJECTED"@.len() != "CANCEL_REJECTED"@.len());
                assert("EXPIRE_LOCK"@.len() != "CANCEL_REJECTED"@.len());
                assert("LOCK_EXPIRED"@.len() != "CANCEL_REJECTED"@.len());
                assert("LOCK_EXPIRATION_REJECTED"@.len() != "CANCEL_REJECTED"@.len());
                assert("FAIL"@.len() != "CANCEL_REJECTED"@.len());
                assert("FAILED"@.len() != "CANCEL_REJECTED"@.len());
                assert("FAIL_REJECTED"@.len() != "CANCEL_REJECTED"@.len());
                assert("UPDATE_RETRIES"@.len() != "CANCEL_REJECTED"@.len());
                assert("RETRIES_UPDATED"@[0] != "CANCEL_REJECTED"@[0]);
                assert("UPDATE_RETRIES_REJECTED"@.len() != "CANCEL_REJECTED"@.len());
                assert("CANCEL"@.len() != "CANCEL_REJECTED"@.len());
                assert("CANCELED"@.len() != "CANCEL_REJECTED"@.len());
            },
        }
    }
}

impl Default for TaskState {
    fn default() -> (state: TaskState)
        ensures
            state == TaskState::Create,
    {
        TaskState::Create
    }
}

/// Where in a workflow a task comes from. A key of -1 means that there is none.
#[derive(Debug, PartialEq, Eq, Clone)]
pub struct TaskHeaders {
    pub workflow_instance_key: i64,
    pub bpmn_process_id: String,
    pub workflow_definition_version: i64,
    pub workflow_key: i64,
    pub activity_id: String,
    pub activity_instance_key: i64,
}

/// What a `TaskHeaders` says.
pub struct TaskHeadersView {
    pub workflow_instance_key: i64,
    pub bpmn_process_id: Seq<char>,
    pub workflow_definition_version: i64,
    pub workflow_key: i64,
    pub activity_id: Seq<char>,
    pub activity_instance_key: i64,
}

impl View for TaskHeaders {
    type V = TaskHeadersView;

    open spec fn view(&self) -> TaskHeadersView {
        TaskHeadersView {
            workflow_instance_key: self.workflow_instance_key,
            bpmn_process_id: self.bpmn_process_id@,
            workflow_definition_version: self.workflow_definition_version,
            workflow_key: self.workflow_key,
            activity_id: self.activity_id@,
            activity_instance_key: self.activity_instance_key,
        }
    }
}

impl TaskHeaders {
    /// What the object says when every field has its default.
    pub open spec fn default_view() -> TaskHeadersView {
        TaskHeadersView {
            workflow_instance_key: -1i64,
            bpmn_process_id: Seq::empty(),
            workflow_definition_version: -1i64,
            workflow_key: -1i64,
            activity_id: Seq::empty(),
            activity_instance_key: -1i64,
        }
    }

    /// What the fields of a map say. A field that is missing has its
    /// default, and fields of other names are not looked at.
    pub open spec fn of_fields(fields: Seq<Field>) -> Result<TaskHeadersView, Failure> {
        let workflow_instance_key = integer_or(
            field(fields, "workflowInstanceKey"@),
            -1,
            i64::MIN as int,
            i64::MAX as int,
        );
        let bpmn_process_id = text_or_empty(field(fields, "bpmnProcessId"@));
        let workflow_definition_version = integer_or(
            field(fields, "workflowDefinitionVersion"@),
            -1,
            i64::MIN as int,
            i64::MAX as int,
        );
        let workflow_key = integer_or(
            field(fields, "workflowKey"@),
            -1,
            i64::MIN as int,
            i64::MAX as int,
        );
        let activity_id = text_or_empty(field(fields, "activityId"@));
        let activity_instance_key = integer_or(
            field(fields, "activityInstanceKey"@),
            -1,
            i64::MIN as int,
            i64::MAX as int,
        );
        if workflow_instance_key is Err {
            Err(workflow_instance_key->Err_0)
        } else if bpmn_process_id is Err {
            Err(bpmn_process_id->Err_0)
        } else if workflow_definition_version is Err {
            Err(workflow_definition_version->Err_0)
        } else if workflow_key is Err {
            Err(workflow_key->Err_0)
        } else if activity_id is Err {
            Err(activity_id->Err_0)
        } else if activity_instance_key is Err {
            Err(activity_instance_key->Err_0)
        } else {
            Ok(
                TaskHeadersView {
                    workflow_instance_key: workflow_instance_key->Ok_0 as i64,
                    bpmn_process_id: bpmn_process_id->Ok_0,
                    workflow_definition_version: workflow_definition_version->Ok_0 as i64,
                    workflow_key: workflow_key->Ok_0 as i64,
                    activity_id: activity_id->Ok_0,
                    activity_instance_key: activity_instance_key->Ok_0 as i64,
                },
            )
        }
    }

    /// The object of an optional field: the default where the field is
    /// missing, a failure where its value is no such object.
    pub open spec fn or_default(value: Option<Seq<u8>>) -> Result<TaskHeadersView, Failure> {
        match value {
            None => Ok(Self::default_view()),
            Some(bytes) => Self::parse_payload(bytes),
        }
    }

    /// Reads the object of an optional field.
    pub fn read(value: Option<&[u8]>) -> (r: Result<TaskHeaders, Error>)
        ensures
            match r {
                Ok(object) => Self::or_default(bytes_of(value))
                    == Ok::<TaskHeadersView, Failure>(object@),
                Err(error) => Self::or_default(bytes_of(value)) matches Err(failure)
                    && failure.reported_by(error),
            },
    {
        match value {
            None => Ok(TaskHeaders::default()),
            Some(bytes) => TaskHeaders::from_payload(bytes),
        }
    }
}

impl Default for TaskHeaders {
    fn default() -> (object: TaskHeaders)
        ensures
            object@ == TaskHeaders::default_view(),
    {
        let object = TaskHeaders {
            workflow_instance_key: -1i64,
            bpmn_process_id: String::new(),
            workflow_definition_version: -1i64,
            workflow_key: -1i64,
            activity_id: String::new(),
            activity_instance_key: -1i64,
        };
        proof {
        }
        object
    }
}

impl TaskHeaders {
    /// The payload that says `view`.
    pub open spec fn payload_of(view: TaskHeadersView) -> Seq<u8> {
        rmp_map_len(6)
            + rmp_str("workflowInstanceKey"@) + rmp_sint(view.workflow_instance_key as i64)
            + rmp_str("bpmnProcessId"@) + rmp_str(view.bpmn_process_id)
            + rmp_str("workflowDefinitionVersion"@)
                + rmp_sint(view.workflow_definition_version as i64)
            + rmp_str("workflowKey"@) + rmp_sint(view.workflow_key as i64)
            + rmp_str("activityId"@) + rmp_str(view.activity_id)
            + rmp_str("activityInstanceKey"@) + rmp_sint(view.activity_instance_key as i64)
    }
}

impl ToData for TaskHeaders {
    open spec fn payload_bytes(&self) -> Seq<u8> {
        TaskHeaders::payload_of(self@)
    }

    open spec fn encodable(&self) -> bool {
        true
    }

    fn to_payload(&self, out: &mut Vec<u8>) -> (r: Result<(), Error>) {
        write_map_len(out, 6);
        write_str(out, "workflowInstanceKey");
        write_sint(out, self.workflow_instance_key as i64);
        write_str(out, "bpmnProcessId");
        write_str(out, self.bpmn_process_id.as_str());
        write_str(out, "workflowDefinitionVersion");
        write_sint(out, self.workflow_definition_version as i64);
        write_str(out, "workflowKey");
        write_sint(out, self.workflow_key as i64);
        write_str(out, "activityId");
        write_str(out, self.activity_id.as_str());
        write_str(out, "activityInstanceKey");
        write_sint(out, self.activity_instance_key as i64);
        proof {
            assert(out@ =~= old(out)@ + self.payload_bytes());
        }
        Ok(())
    }
}

impl FromData for TaskHeaders {
    open spec fn parse_payload(data: Seq<u8>) -> Result<TaskHeadersView, Failure> {
        match parse_map(data) {
            None => Err(Failure::Malformed),
            Some(fields) => Self::of_fields(fields),
        }
    }

    fn from_payload(data: &[u8]) -> (r: Result<TaskHeaders, Error>) {
        let map = match MapReader::read(data) {
            Some(map) => map,
            None => {
                return Err(malformed());
            },
        };
        let workflow_instance_key = match get_integer(
            map.get("workflowInstanceKey"),
            -1,
            i64::MIN as i128,
            i64::MAX as i128,
        ) {
            Ok(workflow_instance_key) => workflow_instance_key,
            Err(error) => {
                return Err(error);
            },
        };
        let bpmn_process_id = match get_text(map.get("bpmnProcessId")) {
            Ok(bpmn_process_id) => bpmn_process_id,
            Err(error) => {
                return Err(error);
            },
        };
        let workflow_definition_version = match get_integer(
            map.get("workflowDefinitionVersion"),
            -1,
            i64::MIN as i128,
            i64::MAX as i128,
        ) {
            Ok(workflow_definition_version) => workflow_definition_version,
            Err(error) => {
                return Err(error);
            },
        };
        let workflow_key = match get_integer(
            map.get("workflowKey"),
            -1,
            i64::MIN as i128,
            i64::MAX as i128,
        ) {
            Ok(workflow_key) => workflow_key,
            Err(error) => {
                return Err(error);
            },
        };
        let activity_id = match get_text(map.get("activityId")) {
            Ok(activity_id) => activity_id,
            Err(error) => {
                return Err(error);
            },
        };
        let activity_instance_key = match get_integer(
            map.get("activityInstanceKey"),
            -1,
            i64::MIN as i128,
            i64::MAX as i128,
        ) {
            Ok(activity_instance_key) => activity_instance_key,
            Err(error) => {
                return Err(error);
            },
        };
        Ok(
            TaskHeaders {
                workflow_instance_key: workflow_instance_key as i64,
                bpmn_process_id,
                workflow_definition_version: workflow_definition_version as i64,
                workflow_key: workflow_key as i64,
                activity_id,
                activity_instance_key: activity_instance_key as i64,
            },
        )
    }
}

/// A task, as the broker records it.
#[derive(Debug, PartialEq, Eq, Clone)]
pub struct TaskEvent {
    pub state: TaskState,
    pub lock_time: i64,
    pub lock_owner: String,
    pub retries: i32,
    pub task_type: String,
    pub headers: TaskHeaders,
    pub custom_headers: Vec<(String, String)>,
    pub payload: Vec<u8>,
}

/// What a `TaskEvent` says.
pub struct TaskEventView {
    pub state: TaskState,
    pub lock_time: i64,
    pub lock_owner: Seq<char>,
    pub retries: i32,
    pub task_type: Seq<char>,
    pub headers: TaskHeadersView,
    pub custom_headers: Seq<Pair>,
    pub payload: Seq<u8>,
}

impl View for TaskEvent {
    type V = TaskEventView;

    open spec fn view(&self) -> TaskEventView {
        TaskEventView {
            state: self.state,
            lock_time: self.lock_time,
            lock_owner: self.lock_owner@,
            retries: self.retries,
            task_type: self.task_type@,
            headers: self.headers@,
            custom_headers: pairs_view(self.custom_headers@),
            payload: self.payload@,
        }
    }
}

impl TaskEvent {
    /// What the object says when every field has its default.
    pub open spec fn default_view() -> TaskEventView {
        TaskEventView {
            state: TaskState::Create,
            lock_time: i64::MIN,
            lock_owner: Seq::empty(),
            retries: -1i32,
            task_type: Seq::empty(),
            headers: TaskHeaders::default_view(),
            custom_headers: Seq::empty(),
            payload: seq![NIL],
        }
    }

    /// What the fields of a map say. A field that is missing has its
    /// default, and fields of other names are not looked at.
    pub open spec fn of_fields(fields: Seq<Field>) -> Result<TaskEventView, Failure> {
        let state = TaskState::or_default(field(fields, "state"@), TaskState::Create);
        let lock_time = integer_or(
            field(fields, "lockTime"@),
            i64::MIN as int,
            i64::MIN as int,
            i64::MAX as int,
        );
        let lock_owner = text_or_empty(field(fields, "lockOwner"@));
        let retries = integer_or(
            field(fields, "retries"@),
            -1,
            i32::MIN as int,
            i32::MAX as int,
        );
        let task_type = text_or_empty(field(fields, "type"@));
        let headers = TaskHeaders::or_default(field(fields, "headers"@));
        let custom_headers = pairs_or_empty(field(fields, "customHeaders"@));
        let payload = blob_or(field(fields, "payload"@), seq![NIL]);
        if state is Err {
            Err(state->Err_0)
        } else if lock_time is Err {
            Err(lock_time->Err_0)
        } else if lock_owner is Err {
            Err(lock_owner->Err_0)
        } else if retries is Err {
            Err(retries->Err_0)
        } else if task_type is Err {
            Err(task_type->Err_0)
        } else if headers is Err {
            Err(headers->Err_0)
        } else if custom_headers is Err {
            Err(custom_headers->Err_0)
        } else if payload is Err {
            Err(payload->Err_0)
        } else {
            Ok(
                TaskEventView {
                    state: state->Ok_0,
                    lock_time: lock_time->Ok_0 as i64,
                    lock_owner: lock_owner->Ok_0,
                    retries: retries->Ok_0 as i32,
                    task_type: task_type->Ok_0,
                    headers: headers->Ok_0,
                    custom_headers: custom_headers->Ok_0,
                    payload: payload->Ok_0,
                },
            )
        }
    }

    /// The object of an optional field: the default where the field is
    /// missing, a failure where its value is no such object.
    pub open spec fn or_default(value: Option<Seq<u8>>) -> Result<TaskEventView, Failure> {
        match value {
            None => Ok(Self::default_view()),
            Some(bytes) => Self::parse_payload(bytes),
        }
    }

    /// Reads the object of an optional field.
    pub fn read(value: Option<&[u8]>) -> (r: Result<TaskEvent, Error>)
        ensures
            match r {
                Ok(object) => Self::or_default(bytes_of(value))
                    == Ok::<TaskEventView, Failure>(object@),
                Err(error) => Self::or_default(bytes_of(value)) matches Err(failure)
                    && failure.reported_by(error),
            },
    {
        match value {
            None => Ok(TaskEvent::default()),
            Some(bytes) => TaskEvent::from_payload(bytes),
        }
    }
}

impl Default for TaskEvent {
    fn default() -> (object: TaskEvent)
        ensures
            object@ == TaskEvent::default_view(),
    {
        let mut payload: Vec<u8> = Vec::new();
        payload.push(NIL);
        let object = TaskEvent {
            state: TaskState::Create,
            lock_time: i64::MIN,
            lock_owner: String::new(),
            retries: -1i32,
            task_type: String::new(),
            headers: TaskHeaders::default(),
            custom_headers: Vec::new(),
            payload,
        };
        proof {
            assert(pairs_view(object.custom_headers@) =~= Seq::empty());
            assert(object.payload@ =~= seq![NIL]);
        }
        object
    }
}

impl TaskEvent {
    /// The payload that says `view`.
    pub open spec fn payload_of(view: TaskEventView) -> Seq<u8> {
        rmp_map_len(8)
            + rmp_str("state"@) + rmp_str(view.state.name())
            + rmp_str("lockTime"@) + rmp_sint(view.lock_time as i64)
            + rmp_str("lockOwner"@) + rmp_str(view.lock_owner)
            + rmp_str("retries"@) + rmp_sint(view.retries as i64)
            + rmp_str("type"@) + rmp_str(view.task_type)
            + rmp_str("headers"@) + TaskHeaders::payload_of(view.headers)
            + rmp_str("customHeaders"@) + pairs_payload(view.custom_headers)
            + rmp_str("payload"@) + rmp_bin(view.payload)
    }
}

impl ToData for TaskEvent {
    open spec fn payload_bytes(&self) -> Seq<u8> {
        TaskEvent::payload_of(self@)
    }

    open spec fn encodable(&self) -> bool {
        self.headers.encodable() && self.custom_headers@.len() <= u32::MAX
    }

    fn to_payload(&self, out: &mut Vec<u8>) -> (r: Result<(), Error>) {
        write_map_len(out, 8);
        write_str(out, "state");
        write_str(out, self.state.as_str());
        write_str(out, "lockTime");
        write_sint(out, self.lock_time as i64);
        write_str(out, "lockOwner");
        write_str(out, self.lock_owner.as_str());
        write_str(out, "retries");
        write_sint(out, self.retries as i64);
        write_str(out, "type");
        write_str(out, self.task_type.as_str());
        write_str(out, "headers");
        match self.headers.to_payload(out) {
            Ok(()) => {},
            Err(error) => {
                return Err(error);
            },
        }
        write_str(out, "customHeaders");
        match write_pairs(out, &self.custom_headers) {
            Ok(()) => {},
            Err(error) => {
                return Err(error);
            },
        }
        write_str(out, "payload");
        write_bin(out, self.payload.as_slice());
        proof {
            assert(out@ =~= old(out)@ + self.payload_bytes());
        }
        Ok(())
    }
}

impl FromData for TaskEvent {
    open spec fn parse_payload(data: Seq<u8>) -> Result<TaskEventView, Failure> {
        match parse_map(data) {
            None => Err(Failure::Malformed),
            Some(fields) => Self::of_fields(fields),
        }
    }

    fn from_payload(data: &[u8]) -> (r: Result<TaskEvent, Error>) {
        let map = match MapReader::read(data) {
            Some(map) => map,
            None => {
                return Err(malformed());
            },
        };
        let state = match TaskState::read(map.get("state"), TaskState::Create) {
            Ok(state) => state,
            Err(error) => {
                return Err(error);
            },
        };
        let lock_time = match get_integer(
            map.get("lockTime"),
            i64::MIN as i128,
            i64::MIN as i128,
            i64::MAX as i128,
        ) {
            Ok(lock_time) => lock_time,
            Err(error) => {
                return Err(error);
            },
        };
        let lock_owner = match get_text(map.get("lockOwner")) {
            Ok(lock_owner) => lock_owner,
            Err(error) => {
                return Err(error);
            },
        };
        let retries = match get_integer(
            map.get("retries"),
            -1,
            i32::MIN as i128,
            i32::MAX as i128,
        ) {
            Ok(retries) => retries,
            Err(error) => {
                return Err(error);
            },
        };
        let task_type = match get_text(map.get("type")) {
            Ok(task_type) => task_type,
            Err(error) => {
                return Err(error);
            },
        };
        let headers = match TaskHeaders::read(map.get("headers")) {
            Ok(headers) => headers,
            Err(error) => {
                return Err(error);
            },
        };
        let custom_headers = match get_pairs(map.get("customHeaders")) {
            Ok(custom_headers) => custom_headers,
            Err(error) => {
                return Err(error);
            },
        };
        let mut payload_default: Vec<u8> = Vec::new();
        payload_default.push(NIL);
        proof {
            assert(payload_default@ =~= seq![NIL]);
        }
        let payload = match get_blob(map.get("payload"), payload_default.as_slice()) {
            Ok(payload) => payload,
            Err(error) => {
                return Err(error);
            },
        };
        Ok(
            TaskEvent {
                state,
                lock_time: lock_time as i64,
                lock_owner,
                retries: retries as i32,
                task_type,
                headers,
                custom_headers,
                payload,
            },
        )
    }
}

/// The pairs with the first pair of the key `key` given the value `value`,
/// or with the pair added at the end where there is none.
pub open spec fn with_pair(pairs: Seq<Pair>, key: Seq<char>, value: Seq<char>) -> Seq<Pair>
    decreases pairs.len(),
{
    if pairs.len() == 0 {
        seq![(key, value)]
    } else if pairs[0].0 == key {
        seq![(key, value)] + pairs.drop_first()
    } else {
        seq![pairs[0]] + with_pair(pairs.drop_first(), key, value)
    }
}

/// Sets the value of `key` in `pairs`: in place where the key is there, at
/// the end where it is not.
pub fn set_pair(pairs: &mut Vec<(String, String)>, key: &str, value: &str)
    ensures
        pairs_view(final(pairs)@) == with_pair(pairs_view(old(pairs)@), key@, value@),
{
    let wanted = String::from_str(key);
    let ghost before = pairs_view(pairs@);
    let mut i: usize = 0;
    proof {
        assert(before.take(0) + with_pair(before.skip(0), key@, value@) =~= with_pair(
            before,
            key@,
            value@,
        )) by {
            assert(before.skip(0) =~= before);
            assert(before.take(0) =~= Seq::<Pair>::empty());
        }
    }
    while i < pairs.len()
        invariant
            i <= pairs@.len(),
            wanted@ == key@,
            pairs@ == old(pairs)@,
            before == pairs_view(old(pairs)@),
            with_pair(before, key@, value@) == before.take(i as int) + with_pair(
                before.skip(i as int),
                key@,
                value@,
            ),
        decreases pairs@.len() - i,
    {
        proof {
            let rest = before.skip(i as int);
            assert(rest[0] == before[i as int]);
            assert(rest.drop_first() =~= before.skip(i + 1));
            assert(before.take(i + 1) =~= before.take(i as int) + seq![before[i as int]]);
        }
        if pairs[i].0 == wanted {
            pairs.set(i, (wanted, String::from_str(value)));
            proof {
                assert(pairs_view(pairs@) =~= before.take(i as int) + (seq![(key@, value@)]
                    + before.skip(i + 1)));
            }
            return ;
        }
        proof {
            let rest = before.skip(i as int);
            assert(before.take(i as int) + (seq![rest[0]] + with_pair(
                before.skip(i + 1),
                key@,
                value@,
            )) =~= before.take(i + 1) + with_pair(before.skip(i + 1), key@, value@));
        }
        i = i + 1;
    }
    pairs.push((wanted, String::from_str(value)));
    proof {
        assert(before.skip(before.len() as int) =~= Seq::<Pair>::empty());
        assert(before.take(before.len() as int) =~= before);
        assert(pairs_view(pairs@) =~= before + seq![(key@, value@)]);
    }
}

impl TaskEvent {
    /// A task of the given state and type and with the given number of
    /// retries; every other field has its default.
    pub fn new(state: TaskState, task_type: &str, retries: i32) -> (event: TaskEvent)
        ensures
            event@ == (TaskEventView {
                state,
                task_type: task_type@,
                retries,
                ..TaskEvent::default_view()
            }),
    {
        let mut event = TaskEvent::default();
        event.state = state;
        event.task_type = String::from_str(task_type);
        event.retries = retries;
        event
    }

    pub fn set_state(&mut self, state: TaskState)
        ensures
            final(self)@ == (TaskEventView { state, ..old(self)@ }),
    {
        self.state = state;
    }

    pub fn set_lock_owner(&mut self, lock_owner: &str)
        ensures
            final(self)@ == (TaskEventView { lock_owner: lock_owner@, ..old(self)@ }),
    {
        self.lock_owner = String::from_str(lock_owner);
    }

    pub fn set_lock_time(&mut self, lock_time: i64)
        ensures
            final(self)@ == (TaskEventView { lock_time, ..old(self)@ }),
    {
        self.lock_time = lock_time;
    }

    pub fn payload(&self) -> (payload: &Vec<u8>)
        ensures
            payload@ == self@.payload,
    {
        &self.payload
    }

    pub fn set_payload(&mut self, payload: Vec<u8>)
        ensures
            final(self)@ == (TaskEventView { payload: payload@, ..old(self)@ }),
    {
        self.payload = payload;
    }

    /// Sets a custom header: a header of that key takes the value, and
    /// where there is none the header is added behind the others.
    pub fn add_custom_header(&mut self, key: &str, value: &str)
        ensures
            final(self)@ == (TaskEventView {
                custom_headers: with_pair(old(self)@.custom_headers, key@, value@),
                ..old(self)@
            }),
    {
        set_pair(&mut self.custom_headers, key, value);
    }
}

} // verus!

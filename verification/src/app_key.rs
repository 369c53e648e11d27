//! Config AppKey messages, and what a configuration server decides when it
//! receives one: which change to make to its stored keys, and what to reply.
//!
//! Serving an AppKey message takes turns between decisions and outside work
//! (changing storage, sending the reply). The decisions are made here;
//! the caller performs the work:
//! 1. `dispatch_start` says which change the message asks of storage, or
//!    that serving it ends at once with `Ok(())`, changing and sending nothing;
//! 2. the caller makes that change;
//! 3. `key_change_reply` turns its outcome into the status reply and the
//!    error, if any, to return once the reply has been sent;
//! 4. the caller sends the reply;
//! 5. `dispatch_result` gives what serving the message returns.

use vstd::prelude::*;

verus! {

/// Index of a network key.
#[derive(Copy, Clone, Debug, PartialEq, Eq, Structural)]
pub struct NetKeyIndex(pub u16);

/// Index of an application key.
#[derive(Copy, Clone, Debug, PartialEq, Eq, Structural)]
pub struct AppKeyIndex(pub u16);

/// A network key index together with an application key index bound to it.
#[derive(Copy, Clone, Debug, PartialEq, Eq, Structural)]
pub struct NetKeyAppKeyIndexesPair(pub NetKeyIndex, pub AppKeyIndex);

/// A 128-bit application key.
#[derive(Copy, Clone, Debug, PartialEq, Eq)]
pub struct ApplicationKey(pub [u8; 16]);

/// Status codes of configuration replies.
#[derive(Copy, Clone, Debug, PartialEq, Eq, Structural)]
pub enum Status {
    Success,
    InvalidAddress,
    InvalidModel,
    InvalidAppKeyIndex,
    InvalidNetKeyIndex,
    InsufficientResources,
    KeyIndexAlreadyStored,
    InvalidPublishParameters,
    NotASubscribeModel,
    StorageFailure,
    FeatureNotSupported,
    CannotUpdate,
    CannotRemove,
    CannotBind,
    TemporarilyUnableToChangeState,
    CannotSet,
    UnspecifiedError,
    InvalidBinding,
}

/// Asks to add an application key bound to a network key.
#[derive(Copy, Clone, Debug, PartialEq, Eq)]
pub struct AppKeyAddMessage {
    pub indexes: NetKeyAppKeyIndexesPair,
    pub app_key: ApplicationKey,
}

/// Asks to delete an application key.
#[derive(Copy, Clone, Debug, PartialEq, Eq, Structural)]
pub struct AppKeyDeleteMessage {
    pub indexes: NetKeyAppKeyIndexesPair,
}

/// Asks for the application keys bound to a network key.
#[derive(Copy, Clone, Debug, PartialEq, Eq, Structural)]
pub struct AppKeyGetMessage {
    pub net_key_index: NetKeyIndex,
}

/// Lists the application keys bound to a network key.
#[derive(Clone, Debug, PartialEq, Eq)]
pub struct AppKeyListMessage {
    pub status: Status,
    pub net_key_index: NetKeyIndex,
    pub app_key_indexes: Vec<AppKeyIndex>,
}

/// Reports the outcome of an Add, Update or Delete.
#[derive(Copy, Clone, Debug, PartialEq, Eq, Structural)]
pub struct AppKeyStatusMessage {
    pub status: Status,
    pub indexes: NetKeyAppKeyIndexesPair,
}

/// Asks to replace an application key.
#[derive(Copy, Clone, Debug, PartialEq, Eq)]
pub struct AppKeyUpdateMessage {
    pub indexes: NetKeyAppKeyIndexesPair,
    pub app_key: ApplicationKey,
}

/// A Config AppKey message.
#[derive(Clone, Debug, PartialEq, Eq)]
pub enum AppKeyMessage {
    Add(AppKeyAddMessage),
    Delete(AppKeyDeleteMessage),
    Get(AppKeyGetMessage),
    List(AppKeyListMessage),
    Status(AppKeyStatusMessage),
    Update(AppKeyUpdateMessage),
}

impl AppKeyAddMessage {
    pub fn net_key_index(&self) -> (r: NetKeyIndex)
        ensures
            r == self.indexes.0,
    {
        self.indexes.0
    }

    pub fn app_key_index(&self) -> (r: AppKeyIndex)
        ensures
            r == self.indexes.1,
    {
        self.indexes.1
    }

    pub fn app_key(&self) -> (r: ApplicationKey)
        ensures
            r == self.app_key,
    {
        self.app_key
    }
}

impl AppKeyDeleteMessage {
    pub fn net_key_index(&self) -> (r: NetKeyIndex)
        ensures
            r == self.indexes.0,
    {
        self.indexes.0
    }

    pub fn app_key_index(&self) -> (r: AppKeyIndex)
        ensures
            r == self.indexes.1,
    {
        self.indexes.1
    }
}

/// Why stored configuration could not be loaded or saved.
#[derive(Copy, Clone, Debug, PartialEq, Eq, Structural)]
pub enum StorageError {
    Load,
    Store,
    Serialization,
}

/// Errors of the mesh driver.
#[derive(Copy, Clone, Debug, PartialEq, Eq, Structural)]
pub enum DriverError {
    InvalidState,
    Unspecified,
    InvalidKeyLength,
    InvalidKeyData,
    InsufficientSpace,
    InvalidFormat,
    InvalidPDU,
    InvalidNetKeyIndex,
    InvalidAppKeyIndex,
    AppKeyIndexAlreadyStored,
    Storage(StorageError),
}

/// Why a change to stored configuration failed: the change itself was
/// refused, or storing it failed.
#[derive(Copy, Clone, Debug, PartialEq, Eq, Structural)]
pub enum ModifyError {
    Driver(DriverError),
    Storage(StorageError),
}

/// The status a change's outcome is reported with, and the error that is
/// handed on besides.
pub open spec fn convert_spec(input: Result<(), ModifyError>) -> (Status, Option<DriverError>) {
    match input {
        Ok(()) => (Status::Success, None),
        Err(ModifyError::Driver(DriverError::InvalidAppKeyIndex)) => (
            Status::InvalidAppKeyIndex,
            None,
        ),
        Err(ModifyError::Driver(DriverError::InvalidNetKeyIndex)) => (
            Status::InvalidNetKeyIndex,
            None,
        ),
        Err(ModifyError::Driver(DriverError::AppKeyIndexAlreadyStored)) => (
            Status::KeyIndexAlreadyStored,
            None,
        ),
        Err(ModifyError::Storage(_)) => (Status::StorageFailure, None),
        Err(ModifyError::Driver(inner)) => (Status::UnspecifiedError, Some(inner)),
    }
}

/// The status with which the outcome of a key change is reported, and the
/// driver error that is handed on after the report: only an error that no
/// status names.
pub fn convert(input: Result<(), ModifyError>) -> (r: (Status, Option<DriverError>))
    ensures
        r == convert_spec(input),
{
    if let Err(result) = input {
        match result {
            ModifyError::Driver(DriverError::InvalidAppKeyIndex) => {
                (Status::InvalidAppKeyIndex, None)
            },
            ModifyError::Driver(DriverError::InvalidNetKeyIndex) => {
                (Status::InvalidNetKeyIndex, None)
            },
            ModifyError::Driver(DriverError::AppKeyIndexAlreadyStored) => {
                (Status::KeyIndexAlreadyStored, None)
            },
            ModifyError::Storage(_) => (Status::StorageFailure, None),
            ModifyError::Driver(inner) => (Status::UnspecifiedError, Some(inner)),
        }
    } else {
        (Status::Success, None)
    }
}

/// Success is reported exactly for a change that was made; an error is
/// handed on exactly when the status is UnspecifiedError, and it is the
/// driver error that caused it. An invalid application key index, an invalid
/// network key index and an index already stored are reported as such, and
/// any failure of storage as a storage failure.
pub proof fn lemma_convert_reports(input: Result<(), ModifyError>)
    ensures
        input == Err::<(), ModifyError>(ModifyError::Driver(DriverError::InvalidAppKeyIndex))
            ==> convert_spec(input) == (Status::InvalidAppKeyIndex, None::<DriverError>),
        input == Err::<(), ModifyError>(ModifyError::Driver(DriverError::InvalidNetKeyIndex))
            ==> convert_spec(input) == (Status::InvalidNetKeyIndex, None::<DriverError>),
        input == Err::<(), ModifyError>(ModifyError::Driver(DriverError::AppKeyIndexAlreadyStored))
            ==> convert_spec(input) == (Status::KeyIndexAlreadyStored, None::<DriverError>),
        input matches Err(ModifyError::Storage(_)) ==> convert_spec(input) == (
            Status::StorageFailure,
            None::<DriverError>,
        ),
        convert_spec(input).0 == Status::Success <==> input is Ok,
        convert_spec(input).1 is Some <==> convert_spec(input).0 == Status::UnspecifiedError,
        convert_spec(input).1 matches Some(e) ==> input == Err::<(), ModifyError>(
            ModifyError::Driver(e),
        ),
{
}

/// A change to the stored application keys.
#[derive(Copy, Clone, Debug, PartialEq, Eq)]
pub enum KeyChange {
    Add { net_key_index: NetKeyIndex, app_key_index: AppKeyIndex, app_key: ApplicationKey },
    Delete { net_key_index: NetKeyIndex, app_key_index: AppKeyIndex },
}

impl KeyChange {
    /// The key indexes the change is about.
    pub open spec fn indexes(self) -> NetKeyAppKeyIndexesPair {
        match self {
            KeyChange::Add { net_key_index, app_key_index, .. } => NetKeyAppKeyIndexesPair(
                net_key_index,
                app_key_index,
            ),
            KeyChange::Delete { net_key_index, app_key_index } => NetKeyAppKeyIndexesPair(
                net_key_index,
                app_key_index,
            ),
        }
    }
}

/// The change that a message asks of storage: adding the key of an Add,
/// deleting the key of a Delete; no change for any other message.
pub open spec fn key_change_spec(message: AppKeyMessage) -> Option<KeyChange> {
    match message {
        AppKeyMessage::Add(add) => Some(
            KeyChange::Add {
                net_key_index: add.indexes.0,
                app_key_index: add.indexes.1,
                app_key: add.app_key,
            },
        ),
        AppKeyMessage::Delete(delete) => Some(
            KeyChange::Delete { net_key_index: delete.indexes.0, app_key_index: delete.indexes.1 },
        ),
        _ => None,
    }
}

/// The first decision in serving an AppKey message: which change to make to
/// the stored keys. `None`: nothing is changed, nothing is replied, and
/// serving the message succeeds.
pub fn key_change(message: &AppKeyMessage) -> (r: Option<KeyChange>)
    ensures
        r == key_change_spec(*message),
{
    match message {
        AppKeyMessage::Add(add) => Some(
            KeyChange::Add {
                net_key_index: add.net_key_index(),
                app_key_index: add.app_key_index(),
                app_key: add.app_key(),
            },
        ),
        AppKeyMessage::Delete(delete) => Some(
            KeyChange::Delete {
                net_key_index: delete.net_key_index(),
                app_key_index: delete.app_key_index(),
            },
        ),
        _ => None,
    }
}

/// Where serving an AppKey message goes after its first decision.
#[derive(Copy, Clone, Debug, PartialEq, Eq)]
pub enum DispatchStep {
    /// Make this change to the stored keys, then reply (`key_change_reply`).
    Change(KeyChange),
    /// Serving ends with this result; nothing is changed and no reply is sent.
    Done(Result<(), DriverError>),
}

/// The first step of serving `message`: the change an Add or Delete asks
/// for; for any other message, the end of serving with `Ok(())`.
pub open spec fn dispatch_start_spec(message: AppKeyMessage) -> DispatchStep {
    match key_change_spec(message) {
        Some(change) => DispatchStep::Change(change),
        None => DispatchStep::Done(Ok(())),
    }
}

/// The first decision in serving an AppKey message: change the stored keys
/// as an Add or Delete asks, or, for any other message, finish at once with
/// `Ok(())`, sending no reply.
pub fn dispatch_start(message: &AppKeyMessage) -> (r: DispatchStep)
    ensures
        r == dispatch_start_spec(*message),
{
    match key_change(message) {
        Some(change) => DispatchStep::Change(change),
        None => DispatchStep::Done(Ok(())),
    }
}

/// The second decision in serving an AppKey message: once the change has
/// been attempted, the Status reply to send (the outcome's status and the
/// indexes of the change) and the error to return after sending it.
pub fn key_change_reply(change: &KeyChange, outcome: Result<(), ModifyError>) -> (r: (
    AppKeyMessage,
    Option<DriverError>,
))
    ensures
        r.0 == AppKeyMessage::Status(
            AppKeyStatusMessage { status: convert_spec(outcome).0, indexes: change.indexes() },
        ),
        r.1 == convert_spec(outcome).1,
{
    let (status, err) = convert(outcome);
    let indexes = match change {
        KeyChange::Add { net_key_index, app_key_index, .. } => NetKeyAppKeyIndexesPair(
            *net_key_index,
            *app_key_index,
        ),
        KeyChange::Delete { net_key_index, app_key_index } => NetKeyAppKeyIndexesPair(
            *net_key_index,
            *app_key_index,
        ),
    };
    (AppKeyMessage::Status(AppKeyStatusMessage { status, indexes }), err)
}

/// What serving a message that asked for a key change returns, given the
/// outcome of sending the reply and the error held back by
/// `key_change_reply`.
pub open spec fn dispatch_result_spec(
    sent: Result<(), DriverError>,
    held_back: Option<DriverError>,
) -> Result<(), DriverError> {
    match sent {
        Err(e) => Err(e),
        Ok(()) => match held_back {
            Some(err) => Err(err),
            None => Ok(()),
        },
    }
}

/// The last decision in serving an AppKey message that asked for a key
/// change: a failure to send the reply is returned as it is; once the reply
/// is sent, the error held back by `key_change_reply` is returned, if any.
pub fn dispatch_result(sent: Result<(), DriverError>, held_back: Option<DriverError>) -> (r: Result<
    (),
    DriverError,
>)
    ensures
        r == dispatch_result_spec(sent, held_back),
{
    match sent {
        Err(e) => Err(e),
        Ok(()) => match held_back {
            Some(err) => Err(err),
            None => Ok(()),
        },
    }
}

/// A change's indexes are the network and application key indexes it names.
pub proof fn lemma_change_indexes(change: KeyChange)
    ensures
        change matches KeyChange::Add { net_key_index, app_key_index, .. } ==> change.indexes()
            == NetKeyAppKeyIndexesPair(net_key_index, app_key_index),
        change matches KeyChange::Delete { net_key_index, app_key_index } ==> change.indexes()
            == NetKeyAppKeyIndexesPair(net_key_index, app_key_index),
{
}

/// The reply to an Add or Delete carries the indexes of that message, and
/// no other message asks for a change.
pub proof fn lemma_reply_echoes_indexes(message: AppKeyMessage)
    ensures
        key_change_spec(message) is Some <==> (message is Add || message is Delete),
        message matches AppKeyMessage::Add(add) ==> key_change_spec(message)->0.indexes()
            == add.indexes,
        message matches AppKeyMessage::Delete(delete) ==> key_change_spec(message)->0.indexes()
            == delete.indexes,
{
}

/// Serving an Add goes on to add that message's key under its indexes, and
/// serving a Delete goes on to delete the key under its indexes; serving any
/// other message ends at once with `Ok(())`.
pub proof fn lemma_dispatch_start(message: AppKeyMessage)
    ensures
        dispatch_start_spec(message) is Done <==> !(message is Add || message is Delete),
        dispatch_start_spec(message) is Done ==> dispatch_start_spec(message)->Done_0 == Ok::<
            (),
            DriverError,
        >(()),
        message is Add ==> dispatch_start_spec(message) == DispatchStep::Change(
            KeyChange::Add {
                net_key_index: message->Add_0.indexes.0,
                app_key_index: message->Add_0.indexes.1,
                app_key: message->Add_0.app_key,
            },
        ),
        message is Delete ==> dispatch_start_spec(message) == DispatchStep::Change(
            KeyChange::Delete {
                net_key_index: message->Delete_0.indexes.0,
                app_key_index: message->Delete_0.indexes.1,
            },
        ),
{
}

/// A failure to send the reply is returned as it is, whatever error was held
/// back; serving succeeds exactly when the reply was sent and no error was
/// held back; otherwise the held-back error is returned.
pub proof fn lemma_dispatch_result(sent: Result<(), DriverError>, held_back: Option<DriverError>)
    ensures
        sent is Err ==> dispatch_result_spec(sent, held_back) == Err::<(), DriverError>(
            sent->Err_0,
        ),
        dispatch_result_spec(sent, held_back) is Ok <==> (sent is Ok && held_back is None),
        sent is Ok && held_back is Some ==> dispatch_result_spec(sent, held_back) == Err::<
            (),
            DriverError,
        >(held_back->Some_0),
{
}

} // verus!

use btmesh::app_key::{
    convert, dispatch_result, dispatch_start, key_change, DispatchStep, key_change_reply, AppKeyAddMessage, AppKeyDeleteMessage, AppKeyGetMessage,
    AppKeyIndex, AppKeyMessage, AppKeyStatusMessage, ApplicationKey, DriverError, KeyChange,
    ModifyError, NetKeyAppKeyIndexesPair, NetKeyIndex, Status, StorageError,
};
use btmesh::configuration::ConfigurationMessage;

fn pair() -> NetKeyAppKeyIndexesPair {
    NetKeyAppKeyIndexesPair(NetKeyIndex(1), AppKeyIndex(2))
}

#[test]
fn convert_maps_each_outcome() {
    assert_eq!(convert(Ok(())), (Status::Success, None));
    assert_eq!(
        convert(Err(ModifyError::Driver(DriverError::InvalidAppKeyIndex))),
        (Status::InvalidAppKeyIndex, None)
    );
    assert_eq!(
        convert(Err(ModifyError::Driver(DriverError::InvalidNetKeyIndex))),
        (Status::InvalidNetKeyIndex, None)
    );
    assert_eq!(
        convert(Err(ModifyError::Driver(DriverError::AppKeyIndexAlreadyStored))),
        (Status::KeyIndexAlreadyStored, None)
    );
    assert_eq!(convert(Err(ModifyError::Storage(StorageError::Store))), (Status::StorageFailure, None));
    assert_eq!(
        convert(Err(ModifyError::Driver(DriverError::InsufficientSpace))),
        (Status::UnspecifiedError, Some(DriverError::InsufficientSpace))
    );
}

#[test]
fn add_and_delete_ask_for_changes() {
    let key = ApplicationKey([7; 16]);
    let add = AppKeyMessage::Add(AppKeyAddMessage { indexes: pair(), app_key: key });
    assert_eq!(
        key_change(&add),
        Some(KeyChange::Add { net_key_index: NetKeyIndex(1), app_key_index: AppKeyIndex(2), app_key: key })
    );
    let delete = AppKeyMessage::Delete(AppKeyDeleteMessage { indexes: pair() });
    assert_eq!(
        key_change(&delete),
        Some(KeyChange::Delete { net_key_index: NetKeyIndex(1), app_key_index: AppKeyIndex(2) })
    );
    let get = AppKeyMessage::Get(AppKeyGetMessage { net_key_index: NetKeyIndex(1) });
    assert_eq!(key_change(&get), None);
}

#[test]
fn reply_carries_status_and_indexes() {
    let change = KeyChange::Delete { net_key_index: NetKeyIndex(1), app_key_index: AppKeyIndex(2) };
    let (reply, err) = key_change_reply(&change, Err(ModifyError::Driver(DriverError::InvalidState)));
    assert_eq!(
        reply,
        AppKeyMessage::Status(AppKeyStatusMessage { status: Status::UnspecifiedError, indexes: pair() })
    );
    assert_eq!(err, Some(DriverError::InvalidState));
    let (reply, err) = key_change_reply(&change, Ok(()));
    assert_eq!(reply, AppKeyMessage::Status(AppKeyStatusMessage { status: Status::Success, indexes: pair() }));
    assert_eq!(err, None);
    let wrapped: ConfigurationMessage = reply.clone().into();
    assert_eq!(wrapped, ConfigurationMessage::AppKey(reply));
}

#[test]
fn add_message_accessors() {
    let add = AppKeyAddMessage { indexes: pair(), app_key: ApplicationKey([1; 16]) };
    assert_eq!(add.net_key_index(), NetKeyIndex(1));
    assert_eq!(add.app_key_index(), AppKeyIndex(2));
    assert_eq!(add.app_key(), ApplicationKey([1; 16]));
}

#[test]
fn dispatch_result_prefers_send_failure() {
    assert_eq!(dispatch_result(Err(DriverError::InvalidState), Some(DriverError::Unspecified)), Err(DriverError::InvalidState));
    assert_eq!(dispatch_result(Ok(()), Some(DriverError::Unspecified)), Err(DriverError::Unspecified));
    assert_eq!(dispatch_result(Ok(()), None), Ok(()));
}

#[test]
fn dispatch_start_finishes_messages_without_change() {
    let get = AppKeyMessage::Get(AppKeyGetMessage { net_key_index: NetKeyIndex(3) });
    assert_eq!(dispatch_start(&get), DispatchStep::Done(Ok(())));
    let status = AppKeyMessage::Status(AppKeyStatusMessage { status: Status::Success, indexes: pair() });
    assert_eq!(dispatch_start(&status), DispatchStep::Done(Ok(())));
    let delete = AppKeyMessage::Delete(AppKeyDeleteMessage { indexes: pair() });
    assert_eq!(
        dispatch_start(&delete),
        DispatchStep::Change(KeyChange::Delete { net_key_index: NetKeyIndex(1), app_key_index: AppKeyIndex(2) })
    );
}

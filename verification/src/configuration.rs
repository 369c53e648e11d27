//! Messages of the configuration server model.

use vstd::prelude::*;
use crate::app_key::AppKeyMessage;
use crate::composition_data::{CompositionDataMessage, CompositionStatus};

verus! {

/// A configuration message.
#[derive(Clone, Debug, PartialEq, Eq)]
pub enum ConfigurationMessage {
    AppKey(AppKeyMessage),
    CompositionData(CompositionDataMessage),
}

impl From<CompositionStatus> for ConfigurationMessage {
    fn from(inner: CompositionStatus) -> (r: Self) {
        ConfigurationMessage::CompositionData(CompositionDataMessage::from(inner))
    }
}

impl vstd::std_specs::convert::FromSpecImpl<CompositionStatus> for ConfigurationMessage {
    open spec fn obeys_from_spec() -> bool {
        true
    }

    open spec fn from_spec(inner: CompositionStatus) -> ConfigurationMessage {
        ConfigurationMessage::CompositionData(CompositionDataMessage::Status(inner))
    }
}

impl From<AppKeyMessage> for ConfigurationMessage {
    fn from(inner: AppKeyMessage) -> (r: Self) {
        ConfigurationMessage::AppKey(inner)
    }
}

impl vstd::std_specs::convert::FromSpecImpl<AppKeyMessage> for ConfigurationMessage {
    open spec fn obeys_from_spec() -> bool {
        true
    }

    open spec fn from_spec(inner: AppKeyMessage) -> ConfigurationMessage {
        ConfigurationMessage::AppKey(inner)
    }
}

} // verus!

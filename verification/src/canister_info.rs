//! What the builders need to know of a canister.

use crate::config::dfinity::CanisterDeclarationsConfig;
use crate::error::{DfxError, DfxErrorView, ErrorCause, ErrorCauseView};
use crate::json::JsonValue;
use crate::name_map::NameMap;
use crate::principal::Principal;
use crate::text::views;
use vstd::prelude::*;
use vstd::string::StringExecFns;

verus! {

/// A canister of the project: its declaration, and where it is built.
#[derive(Debug, PartialEq, Eq)]
pub struct CanisterInfo {
    pub name: String,
    pub canister_type: String,
    /// The directory that holds the manifest.
    pub workspace_root: String,
    /// The directory that receives what is built for the canister.
    pub output_root: String,
    pub canister_id: Option<Principal>,
    pub declarations_config: CanisterDeclarationsConfig,
    /// The fields of the declaration that have no fixed shape.
    pub extras: NameMap<JsonValue>,
}

/// What the asset builder needs to know of a canister beyond `CanisterInfo`.
#[derive(Clone, Debug, PartialEq, Eq)]
pub struct AssetsCanisterInfo {
    /// The directories whose contents become the assets.
    pub source_paths: Vec<String>,
    /// The directory that receives the assets.
    pub output_assets_path: String,
}

/// The failure for a field that is present but has the wrong shape.
pub open spec fn wrong_type_error(key: Seq<char>) -> DfxErrorView {
    DfxErrorView::new(ErrorCauseView::ConfigError("Field '"@ + key + "' is of the wrong type."@))
}

/// The strings of an open field that holds a list of strings: nothing where
/// the field is absent, a failure where it holds anything else.
pub open spec fn extra_text_list(extras: NameMap<JsonValue>, key: Seq<char>) -> Result<
    Option<Seq<Seq<char>>>,
    DfxErrorView,
> {
    match extras.spec_get(key) {
        None => Ok(None),
        Some(value) => match value.spec_as_text_list() {
            Some(list) => Ok(Some(list)),
            None => Err(wrong_type_error(key)),
        },
    }
}

/// The text of an open field that holds a string: nothing where the field is
/// absent, a failure where it holds anything else.
pub open spec fn extra_text(extras: NameMap<JsonValue>, key: Seq<char>) -> Result<
    Option<Seq<char>>,
    DfxErrorView,
> {
    match extras.spec_get(key) {
        None => Ok(None),
        Some(value) => match value.spec_as_text() {
            Some(text) => Ok(Some(text)),
            None => Err(wrong_type_error(key)),
        },
    }
}

/// The failure for a field that is present but has the wrong shape.
fn make_wrong_type_error(key: &str) -> (e: DfxError)
    ensures
        e@ == wrong_type_error(key@),
{
    let mut message = String::from_str("Field '");
    message.append(key);
    message.append("' is of the wrong type.");
    DfxError::new(ErrorCause::ConfigError(message))
}

impl CanisterInfo {
    /// The open field `key` of the declaration, as it was written.
    pub fn get_extra_value(&self, key: &str) -> (r: Option<&JsonValue>)
        ensures
            r is Some == self.extras@.contains_key(key@),
            r matches Some(value) ==> self.extras.spec_get(key@) == Some(*value),
    {
        self.extras.get(key)
    }

    /// Decodes the open field `key` as a list of strings. An absent field is
    /// no failure; a field of another shape is.
    pub fn get_extra_optional_text_list(&self, key: &str) -> (r: Result<
        Option<Vec<String>>,
        DfxError,
    >)
        ensures
            match r {
                Ok(Some(list)) => extra_text_list(self.extras, key@) == Ok::<
                    Option<Seq<Seq<char>>>,
                    DfxErrorView,
                >(Some(views(list@))),
                Ok(None) => extra_text_list(self.extras, key@) == Ok::<
                    Option<Seq<Seq<char>>>,
                    DfxErrorView,
                >(None),
                Err(e) => extra_text_list(self.extras, key@) == Err::<
                    Option<Seq<Seq<char>>>,
                    DfxErrorView,
                >(e@),
            },
    {
        match self.extras.get(key) {
            None => Ok(None),
            Some(value) => match value.as_text_list() {
                Some(list) => Ok(Some(list)),
                None => Err(make_wrong_type_error(key)),
            },
        }
    }

    /// Decodes the open field `key` as a string. An absent field is no
    /// failure; a field of another shape is.
    pub fn get_extra_optional_text(&self, key: &str) -> (r: Result<Option<String>, DfxError>)
        ensures
            match r {
                Ok(Some(text)) => extra_text(self.extras, key@) == Ok::<
                    Option<Seq<char>>,
                    DfxErrorView,
                >(Some(text@)),
                Ok(None) => extra_text(self.extras, key@) == Ok::<Option<Seq<char>>, DfxErrorView>(
                    None,
                ),
                Err(e) => extra_text(self.extras, key@) == Err::<Option<Seq<char>>, DfxErrorView>(
                    e@,
                ),
            },
    {
        match self.extras.get(key) {
            None => Ok(None),
            Some(value) => match value.as_text() {
                Some(text) => Ok(Some(text)),
                None => Err(make_wrong_type_error(key)),
            },
        }
    }
}

/// Decoding an open field that the declaration does not have yields nothing,
/// and never a failure; decoding one that it has, in another shape than the
/// one asked for, fails with a `ConfigError`.
pub proof fn law_extra_field_decoding(extras: NameMap<JsonValue>, key: Seq<char>)
    ensures
        !extras@.contains_key(key) ==> extra_text_list(extras, key) == Ok::<
            Option<Seq<Seq<char>>>,
            DfxErrorView,
        >(None) && extra_text(extras, key) == Ok::<Option<Seq<char>>, DfxErrorView>(None),
        extras@.contains_key(key) && extras@[key].spec_as_text_list() is None ==> extra_text_list(
            extras,
            key,
        ) is Err && extra_text_list(extras, key)->Err_0.cause is ConfigError,
        extras@.contains_key(key) && extras@[key].spec_as_text() is None ==> extra_text(extras, key)
            is Err && extra_text(extras, key)->Err_0.cause is ConfigError,
        extras@.contains_key(key) && extras@[key].spec_as_text_list() is Some ==> extra_text_list(
            extras,
            key,
        ) == Ok::<Option<Seq<Seq<char>>>, DfxErrorView>(extras@[key].spec_as_text_list()),
        extras@.contains_key(key) && extras@[key].spec_as_text() is Some ==> extra_text(extras, key)
            == Ok::<Option<Seq<char>>, DfxErrorView>(extras@[key].spec_as_text()),
{
}

} // verus!

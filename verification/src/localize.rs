//! Localized text, through the Fluent catalogue loader of `i18n-embed`.
//!
//! Which text a message identifier resolves to depends on the languages the
//! loader currently has selected, which the desktop session decides and may
//! change while the program runs. Nothing here claims what that text is: the
//! functions of the library state which message they ask for, and hand back
//! whatever the loader answers.

use vstd::prelude::*;

verus! {

/// The catalogue loader of `i18n-embed`, carried through opaquely.
#[verifier::external_type_specification]
#[verifier::external_body]
pub struct ExFluentLanguageLoader(i18n_embed::fluent::FluentLanguageLoader);

/// Calls `FluentLanguageLoader::get` for one message. Nothing is claimed of
/// the text: it depends on the languages the loader has selected, and the
/// loader answers a fixed sentence naming the identifier for a message it
/// does not have.
#[verifier::external_body]
pub(crate) fn localized(
    loader: &i18n_embed::fluent::FluentLanguageLoader,
    message_id: &str,
) -> String {
    loader.get(message_id)
}

/// Calls `FluentLanguageLoader::get_args` for one message with a single
/// integer argument named `count`. Nothing is claimed of the text, for the
/// reasons given at [`localized`].
#[verifier::external_body]
pub(crate) fn localized_count(
    loader: &i18n_embed::fluent::FluentLanguageLoader,
    message_id: &str,
    count: i64,
) -> String {
    loader.get_args(message_id, std::collections::HashMap::from([("count", count)]))
}

} // verus!

use vstd::prelude::*;

verus! {

/// A secret attached to an app: its name and its plaintext value.
pub struct Secret {
    pub name: String,
    pub value: String,
}

impl Secret {
    pub open spec fn pair(&self) -> (Seq<char>, Seq<char>) {
        (self.name@, self.value@)
    }

    pub fn new(name: String, value: String) -> (r: Secret)
        ensures
            r.name@ == name@,
            r.value@ == value@,
    {
        Secret { name, value }
    }
}

/// The (name, value) pairs of a list of secrets, in order.
pub open spec fn pairs_of(s: Seq<Secret>) -> Seq<(Seq<char>, Seq<char>)> {
    s.map_values(|x: Secret| x.pair())
}

/// Formats for rendering a collection of secrets.
#[derive(Clone, Copy, Debug, PartialEq, Eq, Structural)]
pub enum ListFormat {
    Json,
    Yaml,
    Table,
    ItemTable,
}

/// Formats for rendering a single secret.
#[derive(Clone, Copy, Debug, PartialEq, Eq, Structural)]
pub enum ItemFormat {
    Json,
    Yaml,
    Table,
}

/// Why revealing a secret failed.
#[derive(Clone, Copy, Debug, PartialEq, Eq, Structural)]
pub enum RevealError {
    /// No app was named and prompting is disabled.
    MissingAppId,
    /// No secret name was given and prompting is disabled.
    MissingSecretName,
    /// A prompt could not read an answer.
    Input,
    /// An app identifier does not name a known app.
    Resolution,
    /// The app has no secret of the requested name.
    NotFound,
    /// The remote API could not be reached or refused the request.
    Api,
    /// The working directory could not be determined.
    Io,
    /// The requested format cannot render a single value.
    UnsupportedFormat,
    /// A secret name was given together with the request for all secrets.
    NameWithAll,
    /// An app identifier was given together with an app directory.
    AppIdWithAppDir,
}

impl RevealError {
    /// The human-readable message for this error.
    pub fn message(&self) -> (r: String)
        ensures
            *self == RevealError::MissingAppId ==> r@ == "No app id given. Use the `--app_id` flag to specify one."@,
            *self == RevealError::MissingSecretName ==> r@ == "No secret name given. Use the `--name` flag to specify one."@,
            *self == RevealError::Input ==> r@ == "Could not read the answer to the prompt."@,
            *self == RevealError::Resolution ==> r@ == "Could not resolve the app identifier to an app."@,
            *self == RevealError::NotFound ==> r@ == "No secret of that name exists for the app."@,
            *self == RevealError::Api ==> r@ == "The request to the remote API failed."@,
            *self == RevealError::Io ==> r@ == "Could not determine the current directory."@,
            *self == RevealError::UnsupportedFormat ==> r@ == "The 'item-table' format is not available for single values."@,
            *self == RevealError::NameWithAll ==> r@ == "The argument 'name' cannot be used with '--all'."@,
            *self == RevealError::AppIdWithAppDir ==> r@ == "The argument 'app_id' cannot be used with '--app-dir'."@,
    {
        let s = match self {
            RevealError::MissingAppId => "No app id given. Use the `--app_id` flag to specify one.",
            RevealError::MissingSecretName => "No secret name given. Use the `--name` flag to specify one.",
            RevealError::Input => "Could not read the answer to the prompt.",
            RevealError::Resolution => "Could not resolve the app identifier to an app.",
            RevealError::NotFound => "No secret of that name exists for the app.",
            RevealError::Api => "The request to the remote API failed.",
            RevealError::Io => "Could not determine the current directory.",
            RevealError::UnsupportedFormat => "The 'item-table' format is not available for single values.",
            RevealError::NameWithAll => "The argument 'name' cannot be used with '--all'.",
            RevealError::AppIdWithAppDir => "The argument 'app_id' cannot be used with '--app-dir'.",
        };
        proof {
            reveal_strlit("No app id given. Use the `--app_id` flag to specify one.");
            reveal_strlit("No secret name given. Use the `--name` flag to specify one.");
            reveal_strlit("Could not read the answer to the prompt.");
            reveal_strlit("Could not resolve the app identifier to an app.");
            reveal_strlit("No secret of that name exists for the app.");
            reveal_strlit("The request to the remote API failed.");
            reveal_strlit("Could not determine the current directory.");
            reveal_strlit("The 'item-table' format is not available for single values.");
            reveal_strlit("The argument 'name' cannot be used with '--all'.");
            reveal_strlit("The argument 'app_id' cannot be used with '--app-dir'.");
        }
        s.to_string()
    }
}

} // verus!

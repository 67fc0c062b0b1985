use vstd::prelude::*;
use crate::types::{Secret, ListFormat, RevealError, pairs_of};
use crate::resolve::{AppResolver, AppAction, AppEvent, AppStage, app_start, app_next, app_event_fits};
use crate::render::{render_single, render_all, single_output, list_output};

verus! {

/// Reveal the value of one or all secrets of an app.
pub struct CmdAppSecretsReveal {
    /// The name of the secret to reveal.
    pub secret_name: Option<String>,
    /// The identifier of the app the secret belongs to.
    pub app_id: Option<String>,
    /// The directory whose project config names the app.
    pub app_dir_path: Option<String>,
    /// Reveal every secret of the app.
    pub all: bool,
    /// Print no message besides the secrets.
    pub quiet: bool,
    /// Never prompt; missing input is an error.
    pub non_interactive: bool,
    /// The format to render in; none asks for the bare value(s).
    pub fmt: Option<ListFormat>,
}

/// What the caller has to do next to reveal the secrets.
pub enum RevealAction {
    /// Look an app identifier up remotely; answer with `AppEvent::Resolved`.
    ResolveApp(String),
    /// Determine the current directory; answer with `AppEvent::CurrentDir`.
    CurrentDir,
    /// Read the app id cached in the project config of this directory;
    /// answer with `AppEvent::Config`.
    ReadConfig(String),
    /// Ask the user for the name of the app; answer with `AppEvent::Prompted`.
    PromptApp,
    /// Ask the user for the name of the secret; answer with `SecretName`.
    PromptSecretName,
    /// Fetch the value of one secret; answer with `Fetched`.
    FetchSecret { app_id: String, name: String },
    /// Fetch every secret of the app; answer with `Listed`.
    FetchAll { app_id: String },
    /// Write this text to standard output; the command succeeded.
    Print(String),
    /// The command failed.
    Fail(RevealError),
}

/// What the caller learned while doing a `RevealAction`.
pub enum RevealEvent {
    /// An answer for the app resolution.
    App(AppEvent),
    /// The secret name the user typed, if the prompt could be read.
    SecretName(Option<String>),
    /// The value of the requested secret, or why it could not be fetched.
    Fetched(Result<String, RevealError>),
    /// The secrets of the app as the remote source lists them, or why they
    /// could not be fetched.
    Listed(Result<Vec<Secret>, RevealError>),
}

/// Which answer a session waits for.
pub enum RevealStage {
    /// The app is being resolved.
    App,
    /// The secret name of the app with this id is being asked for.
    AwaitName(String),
    /// The value of the secret of this name is being fetched.
    AwaitSecret(String),
    /// The list of secrets is being fetched.
    AwaitList,
    Finished,
}

/// Whether an action talks to the remote API.
pub open spec fn is_remote(a: RevealAction) -> bool {
    a is ResolveApp || a is FetchSecret || a is FetchAll
}

/// The first error in the command's arguments, if any: a secret name and
/// `all` exclude each other, and so do an app identifier and a directory.
pub open spec fn argument_error(c: CmdAppSecretsReveal) -> Option<RevealError> {
    if c.secret_name is Some && c.all {
        Some(RevealError::NameWithAll)
    } else if c.app_id is Some && c.app_dir_path is Some {
        Some(RevealError::AppIdWithAppDir)
    } else {
        None
    }
}

impl CmdAppSecretsReveal {
    /// Checks that the arguments do not exclude each other.
    pub fn validate(&self) -> (r: Result<(), RevealError>)
        ensures
            r is Err <==> argument_error(*self) is Some,
            r is Err ==> r->Err_0 == argument_error(*self)->0,
    {
        if self.secret_name.is_some() && self.all {
            Err(RevealError::NameWithAll)
        } else if self.app_id.is_some() && self.app_dir_path.is_some() {
            Err(RevealError::AppIdWithAppDir)
        } else {
            Ok(())
        }
    }

    /// Starts revealing: the arguments are checked before anything else is
    /// done, then the app is resolved.
    pub fn begin(self) -> (r: (RevealSession, RevealAction))
        ensures
            argument_error(self) is Some ==> r.1 == RevealAction::Fail(argument_error(self)->0)
                && r.0.stage is Finished,
            argument_error(self) is None ==> {
                &&& (r.0.app.stage, app_action(r.1)) == app_start(self.app_id, self.app_dir_path)
                &&& r.0.stage is App
            },
            r.0.app.non_interactive == self.non_interactive,
            r.0.secret_name == self.secret_name,
            r.0.all == self.all,
            r.0.non_interactive == self.non_interactive,
            r.0.fmt == self.fmt,
    {
        let check = self.validate();
        let (app, first) = AppResolver::start(self.app_id, self.app_dir_path, self.non_interactive);
        let mut session = RevealSession {
            stage: RevealStage::App,
            app,
            secret_name: self.secret_name,
            all: self.all,
            non_interactive: self.non_interactive,
            fmt: self.fmt,
        };
        match check {
            Err(e) => {
                session.stage = RevealStage::Finished;
                (session, RevealAction::Fail(e))
            },
            Ok(()) => {
                let a = lift_app_action(first);
                (session, a)
            },
        }
    }
}

/// The app-resolution action that a session action passes on.
pub open spec fn app_action(a: RevealAction) -> AppAction {
    match a {
        RevealAction::ResolveApp(x) => AppAction::Resolve(x),
        RevealAction::CurrentDir => AppAction::CurrentDir,
        RevealAction::ReadConfig(d) => AppAction::ReadConfig(d),
        RevealAction::PromptApp => AppAction::Prompt,
        RevealAction::Fail(e) => AppAction::Fail(e),
        _ => AppAction::Fail(RevealError::Api),
    }
}

/// Passes on an app-resolution action that is not its end.
fn lift_app_action(a: AppAction) -> (r: RevealAction)
    requires
        !(a is Done),
    ensures
        app_action(r) == a,
        r is ResolveApp || r is CurrentDir || r is ReadConfig || r is PromptApp || r is Fail,
{
    match a {
        AppAction::Resolve(x) => RevealAction::ResolveApp(x),
        AppAction::CurrentDir => RevealAction::CurrentDir,
        AppAction::ReadConfig(d) => RevealAction::ReadConfig(d),
        AppAction::Prompt => RevealAction::PromptApp,
        AppAction::Fail(e) => RevealAction::Fail(e),
        AppAction::Done(_) => RevealAction::Fail(RevealError::Api),
    }
}

/// Whether `ev` answers the action that a session in `s` handed out.
pub open spec fn reveal_event_fits(s: RevealSession, ev: RevealEvent) -> bool {
    match s.stage {
        RevealStage::App => ev matches RevealEvent::App(a) && app_event_fits(s.app.stage, a),
        RevealStage::AwaitName(_) => ev is SecretName,
        RevealStage::AwaitSecret(_) => ev is Fetched,
        RevealStage::AwaitList => ev is Listed,
        RevealStage::Finished => false,
    }
}

/// What follows once the app id is known: the whole list is fetched in
/// `all` mode; else the secret of the given name, or of a name the user is
/// asked for where prompting is allowed.
pub open spec fn after_app_id(s: RevealSession, id: String, stage: RevealStage, a: RevealAction) -> bool {
    if s.all {
        stage is AwaitList && a == RevealAction::FetchAll { app_id: id }
    } else {
        match s.secret_name {
            Some(n) => stage == RevealStage::AwaitSecret(n) && a == RevealAction::FetchSecret {
                app_id: id,
                name: n,
            },
            None => if s.non_interactive {
                stage is Finished && a == RevealAction::Fail(RevealError::MissingSecretName)
            } else {
                stage == RevealStage::AwaitName(id) && a == RevealAction::PromptSecretName
            },
        }
    }
}

/// One transition of a session, from `s` on the answer `ev` to the stage of
/// `t` and the action `a`.
pub open spec fn reveal_next(s: RevealSession, ev: RevealEvent, t: RevealSession, a: RevealAction) -> bool {
    match ev {
        RevealEvent::App(e) => {
            let (st, aa) = app_next(s.app.stage, s.app.non_interactive, e);
            &&& t.app.stage == st
            &&& match aa {
                AppAction::Done(id) => after_app_id(s, id, t.stage, a),
                AppAction::Fail(err) => t.stage is Finished && a == RevealAction::Fail(err),
                _ => t.stage is App && app_action(a) == aa && (a is ResolveApp || a is CurrentDir
                    || a is ReadConfig || a is PromptApp),
            }
        },
        RevealEvent::SecretName(answer) => match (s.stage, answer) {
            (RevealStage::AwaitName(id), Some(n)) => t.stage == RevealStage::AwaitSecret(n) && a
                == RevealAction::FetchSecret { app_id: id, name: n },
            _ => t.stage is Finished && a == RevealAction::Fail(RevealError::Input),
        },
        RevealEvent::Fetched(Err(e)) => t.stage is Finished && a == RevealAction::Fail(e),
        RevealEvent::Fetched(Ok(v)) => t.stage is Finished && match s.stage {
            RevealStage::AwaitSecret(n) => match single_output((n@, v@), s.fmt) {
                Ok(text) => (a matches RevealAction::Print(p) && p@ == text),
                Err(e) => a == RevealAction::Fail(e),
            },
            _ => false,
        },
        RevealEvent::Listed(Err(e)) => t.stage is Finished && a == RevealAction::Fail(e),
        RevealEvent::Listed(Ok(secrets)) => {
            &&& t.stage is Finished
            &&& a matches RevealAction::Print(p) && p@ == list_output(pairs_of(secrets@), s.fmt)
        },
    }
}

/// A reveal in progress: the decisions between the outside steps.
pub struct RevealSession {
    pub stage: RevealStage,
    pub app: AppResolver,
    pub secret_name: Option<String>,
    pub all: bool,
    pub non_interactive: bool,
    pub fmt: Option<ListFormat>,
}

impl RevealSession {
    /// Whether the session has handed out its last action.
    pub fn is_finished(&self) -> (r: bool)
        ensures
            r == (self.stage is Finished),
    {
        match self.stage {
            RevealStage::Finished => true,
            _ => false,
        }
    }

    /// Decides what follows a known app id.
    fn next_after_app_id(&mut self, id: String) -> (a: RevealAction)
        ensures
            after_app_id(*old(self), id, final(self).stage, a),
            final(self).app == old(self).app,
            final(self).all == old(self).all,
            final(self).secret_name == old(self).secret_name,
            final(self).non_interactive == old(self).non_interactive,
            final(self).fmt == old(self).fmt,
    {
        if self.all {
            self.stage = RevealStage::AwaitList;
            RevealAction::FetchAll { app_id: id }
        } else {
            match &self.secret_name {
                Some(n) => {
                    self.stage = RevealStage::AwaitSecret(n.clone());
                    RevealAction::FetchSecret { app_id: id, name: n.clone() }
                },
                None => if self.non_interactive {
                    self.stage = RevealStage::Finished;
                    RevealAction::Fail(RevealError::MissingSecretName)
                } else {
                    self.stage = RevealStage::AwaitName(id);
                    RevealAction::PromptSecretName
                },
            }
        }
    }

    /// Takes the answer to the last action and returns the next action.
    pub fn step(&mut self, ev: RevealEvent) -> (a: RevealAction)
        requires
            reveal_event_fits(*old(self), ev),
        ensures
            reveal_next(*old(self), ev, *final(self), a),
            final(self).all == old(self).all,
            final(self).secret_name == old(self).secret_name,
            final(self).non_interactive == old(self).non_interactive,
            final(self).app.non_interactive == old(self).app.non_interactive,
            final(self).fmt == old(self).fmt,
    {
        let mut stage = RevealStage::Finished;
        core::mem::swap(&mut stage, &mut self.stage);
        match ev {
            RevealEvent::App(e) => {
                self.stage = RevealStage::App;
                let aa = self.app.step(e);
                match aa {
                    AppAction::Done(id) => self.next_after_app_id(id),
                    AppAction::Fail(err) => {
                        self.stage = RevealStage::Finished;
                        RevealAction::Fail(err)
                    },
                    other => lift_app_action(other),
                }
            },
            RevealEvent::SecretName(answer) => match (stage, answer) {
                (RevealStage::AwaitName(id), Some(n)) => {
                    self.stage = RevealStage::AwaitSecret(n.clone());
                    RevealAction::FetchSecret { app_id: id, name: n }
                },
                _ => RevealAction::Fail(RevealError::Input),
            },
            RevealEvent::Fetched(Err(e)) => RevealAction::Fail(e),
            RevealEvent::Fetched(Ok(value)) => match stage {
                RevealStage::AwaitSecret(name) => {
                    let secret = Secret { name, value };
                    match render_single(&secret, self.fmt) {
                        Ok(text) => RevealAction::Print(text),
                        Err(e) => RevealAction::Fail(e),
                    }
                },
                _ => RevealAction::Fail(RevealError::Api),
            },
            RevealEvent::Listed(Err(e)) => RevealAction::Fail(e),
            RevealEvent::Listed(Ok(secrets)) => RevealAction::Print(render_all(&secrets, self.fmt)),
        }
    }
}

/// A secret name given together with `all` is an argument error, found
/// before anything else; `begin` then hands out only that failure, and a
/// finished session accepts no answer, so no remote call is ever asked for.
pub proof fn name_with_all_is_rejected_first(c: CmdAppSecretsReveal, s: RevealSession, ev: RevealEvent)
    requires
        c.secret_name is Some,
        c.all,
        s.stage is Finished,
    ensures
        argument_error(c) == Some(RevealError::NameWithAll),
        !reveal_event_fits(s, ev),
{
}

/// With prompting disabled, a session whose project config holds no app id
/// fails with `MissingAppId` at once: it neither prompts nor calls the remote
/// API, and it is finished.
pub proof fn non_interactive_missing_config_fails(s: RevealSession, t: RevealSession, a: RevealAction)
    requires
        s.stage is App,
        s.app.stage == AppStage::AwaitConfig,
        s.app.non_interactive,
        reveal_next(s, RevealEvent::App(AppEvent::Config(None)), t, a),
    ensures
        a == RevealAction::Fail(RevealError::MissingAppId),
        !is_remote(a),
        t.stage is Finished,
{
}

} // verus!

use vstd::prelude::*;
use crate::types::RevealError;

verus! {

/// What the caller has to do next while the app is being resolved.
pub enum AppAction {
    /// Look the identifier up remotely; answer with `AppEvent::Resolved`.
    Resolve(String),
    /// Determine the current directory; answer with `AppEvent::CurrentDir`.
    CurrentDir,
    /// Read the app id cached in the project config of this directory;
    /// answer with `AppEvent::Config`.
    ReadConfig(String),
    /// Ask the user for the name of the app; answer with `AppEvent::Prompted`.
    Prompt,
    /// The app id is known.
    Done(String),
    /// Resolution failed.
    Fail(RevealError),
}

/// What the caller learned while doing an `AppAction`.
pub enum AppEvent {
    /// The canonical id of the looked-up app, or why the lookup failed.
    Resolved(Result<String, RevealError>),
    /// The current directory, if it could be determined.
    CurrentDir(Option<String>),
    /// The app id found in the project config, if any could be read.
    Config(Option<String>),
    /// The identifier the user typed, if the prompt could be read.
    Prompted(Option<String>),
}

/// Which answer the resolver waits for.
#[derive(Clone, Copy, Debug, PartialEq, Eq, Structural)]
pub enum AppStage {
    AwaitResolve,
    AwaitCurrentDir,
    AwaitConfig,
    AwaitPrompt,
    Finished,
}

/// The first stage and action of a resolution: an explicit identifier wins,
/// else the config of the given directory, else that of the current one.
pub open spec fn app_start(app_id: Option<String>, app_dir: Option<String>) -> (AppStage, AppAction) {
    match app_id {
        Some(id) => (AppStage::AwaitResolve, AppAction::Resolve(id)),
        None => match app_dir {
            Some(d) => (AppStage::AwaitConfig, AppAction::ReadConfig(d)),
            None => (AppStage::AwaitCurrentDir, AppAction::CurrentDir),
        },
    }
}

/// Whether `ev` answers the action that a resolver in `stage` handed out.
pub open spec fn app_event_fits(stage: AppStage, ev: AppEvent) -> bool {
    match stage {
        AppStage::AwaitResolve => ev is Resolved,
        AppStage::AwaitCurrentDir => ev is CurrentDir,
        AppStage::AwaitConfig => ev is Config,
        AppStage::AwaitPrompt => ev is Prompted,
        AppStage::Finished => false,
    }
}

/// One transition of the resolver: a cached id is taken as it is; without one,
/// the user is asked only where prompting is allowed.
pub open spec fn app_next(stage: AppStage, non_interactive: bool, ev: AppEvent) -> (AppStage, AppAction) {
    match ev {
        AppEvent::Resolved(Ok(id)) => (AppStage::Finished, AppAction::Done(id)),
        AppEvent::Resolved(Err(e)) => (AppStage::Finished, AppAction::Fail(e)),
        AppEvent::CurrentDir(Some(d)) => (AppStage::AwaitConfig, AppAction::ReadConfig(d)),
        AppEvent::CurrentDir(None) => (AppStage::Finished, AppAction::Fail(RevealError::Io)),
        AppEvent::Config(Some(id)) => (AppStage::Finished, AppAction::Done(id)),
        AppEvent::Config(None) => if non_interactive {
            (AppStage::Finished, AppAction::Fail(RevealError::MissingAppId))
        } else {
            (AppStage::AwaitPrompt, AppAction::Prompt)
        },
        AppEvent::Prompted(Some(ident)) => (AppStage::AwaitResolve, AppAction::Resolve(ident)),
        AppEvent::Prompted(None) => (AppStage::Finished, AppAction::Fail(RevealError::Input)),
    }
}

/// The actions a resolver in `stage` hands out when answered with `evs` in
/// turn; the run stops at the first answer that does not fit.
pub open spec fn app_run(stage: AppStage, non_interactive: bool, evs: Seq<AppEvent>) -> Seq<AppAction>
    decreases evs.len(),
{
    if evs.len() == 0 || !app_event_fits(stage, evs[0]) {
        Seq::empty()
    } else {
        let (s, a) = app_next(stage, non_interactive, evs[0]);
        seq![a] + app_run(s, non_interactive, evs.drop_first())
    }
}

/// Whether an action reads local state or asks the user.
pub open spec fn consults_local(a: AppAction) -> bool {
    a is CurrentDir || a is ReadConfig || a is Prompt
}

/// Resolves which app is meant, one outside answer at a time.
pub struct AppResolver {
    pub stage: AppStage,
    pub non_interactive: bool,
}

impl AppResolver {
    /// Starts a resolution and returns the resolver with its first action.
    pub fn start(app_id: Option<String>, app_dir: Option<String>, non_interactive: bool) -> (r: (
        AppResolver,
        AppAction,
    ))
        ensures
            (r.0.stage, r.1) == app_start(app_id, app_dir),
            r.0.non_interactive == non_interactive,
    {
        match app_id {
            Some(id) => (AppResolver { stage: AppStage::AwaitResolve, non_interactive }, AppAction::Resolve(id)),
            None => match app_dir {
                Some(d) => (AppResolver { stage: AppStage::AwaitConfig, non_interactive }, AppAction::ReadConfig(d)),
                None => (AppResolver { stage: AppStage::AwaitCurrentDir, non_interactive }, AppAction::CurrentDir),
            },
        }
    }

    /// Whether the resolver still waits for an answer.
    pub fn is_finished(&self) -> (r: bool)
        ensures
            r == (self.stage == AppStage::Finished),
    {
        self.stage == AppStage::Finished
    }

    /// Takes the answer to the last action and returns the next action.
    pub fn step(&mut self, ev: AppEvent) -> (a: AppAction)
        requires
            app_event_fits(old(self).stage, ev),
        ensures
            (final(self).stage, a) == app_next(old(self).stage, old(self).non_interactive, ev),
            final(self).non_interactive == old(self).non_interactive,
    {
        match ev {
            AppEvent::Resolved(Ok(id)) => {
                self.stage = AppStage::Finished;
                AppAction::Done(id)
            },
            AppEvent::Resolved(Err(e)) => {
                self.stage = AppStage::Finished;
                AppAction::Fail(e)
            },
            AppEvent::CurrentDir(Some(d)) => {
                self.stage = AppStage::AwaitConfig;
                AppAction::ReadConfig(d)
            },
            AppEvent::CurrentDir(None) => {
                self.stage = AppStage::Finished;
                AppAction::Fail(RevealError::Io)
            },
            AppEvent::Config(Some(id)) => {
                self.stage = AppStage::Finished;
                AppAction::Done(id)
            },
            AppEvent::Config(None) => {
                if self.non_interactive {
                    self.stage = AppStage::Finished;
                    AppAction::Fail(RevealError::MissingAppId)
                } else {
                    self.stage = AppStage::AwaitPrompt;
                    AppAction::Prompt
                }
            },
            AppEvent::Prompted(Some(ident)) => {
                self.stage = AppStage::AwaitResolve;
                AppAction::Resolve(ident)
            },
            AppEvent::Prompted(None) => {
                self.stage = AppStage::Finished;
                AppAction::Fail(RevealError::Input)
            },
        }
    }
}

/// Whatever the outside answers, a resolver that waits for a lookup only
/// finishes: it never reads local state nor asks the user.
proof fn lemma_await_resolve_run(non_interactive: bool, evs: Seq<AppEvent>)
    ensures
        app_run(AppStage::AwaitResolve, non_interactive, evs).len() <= 1,
        forall|i: int|
            0 <= i < app_run(AppStage::AwaitResolve, non_interactive, evs).len() ==> {
                let a = #[trigger] app_run(AppStage::AwaitResolve, non_interactive, evs)[i];
                a is Done || a is Fail
            },
{
    reveal_with_fuel(app_run, 2);
}

/// An explicitly given app identifier is looked up and nothing else: for
/// every sequence of answers, the resolver never determines the current
/// directory, never reads a project config and never prompts.
pub proof fn explicit_app_id_consults_nothing_local(
    id: String,
    app_dir: Option<String>,
    non_interactive: bool,
    evs: Seq<AppEvent>,
)
    ensures
        app_start(Some(id), app_dir).1 == AppAction::Resolve(id),
        forall|i: int|
            0 <= i < app_run(app_start(Some(id), app_dir).0, non_interactive, evs).len() ==> !consults_local(
                #[trigger] app_run(app_start(Some(id), app_dir).0, non_interactive, evs)[i],
            ),
{
    lemma_await_resolve_run(non_interactive, evs);
}

/// Without an explicit identifier and with prompting disabled, the resolver
/// never prompts nor looks anything up remotely, and a missing config ends it
/// with `MissingAppId` (for `evs`, the answers given in turn).
pub proof fn non_interactive_without_app_id_never_prompts(
    app_dir: Option<String>,
    evs: Seq<AppEvent>,
)
    ensures
        !(app_start(None, app_dir).1 is Prompt),
        !(app_start(None, app_dir).1 is Resolve),
        forall|i: int|
            0 <= i < app_run(app_start(None, app_dir).0, true, evs).len() ==> {
                let a = #[trigger] app_run(app_start(None, app_dir).0, true, evs)[i];
                &&& !(a is Prompt)
                &&& !(a is Resolve)
                &&& evs[i] == AppEvent::Config(None) ==> a == AppAction::Fail(RevealError::MissingAppId)
            },
{
    lemma_non_interactive_local_run(app_start(None, app_dir).0, evs);
}

proof fn lemma_non_interactive_local_run(stage: AppStage, evs: Seq<AppEvent>)
    requires
        stage == AppStage::AwaitCurrentDir || stage == AppStage::AwaitConfig || stage == AppStage::Finished,
    ensures
        app_run(stage, true, evs).len() <= evs.len(),
        forall|i: int|
            0 <= i < app_run(stage, true, evs).len() ==> {
                let a = #[trigger] app_run(stage, true, evs)[i];
                &&& !(a is Prompt)
                &&& !(a is Resolve)
                &&& evs[i] == AppEvent::Config(None) ==> a == AppAction::Fail(RevealError::MissingAppId)
            },
    decreases evs.len(),
{
    if evs.len() > 0 && app_event_fits(stage, evs[0]) {
        let (s, a) = app_next(stage, true, evs[0]);
        let rest = evs.drop_first();
        lemma_non_interactive_local_run(s, rest);
        let run = app_run(stage, true, evs);
        assert(run == seq![a] + app_run(s, true, rest));
        assert forall|i: int| 0 <= i < run.len() implies {
            let b = #[trigger] run[i];
            &&& !(b is Prompt)
            &&& !(b is Resolve)
            &&& evs[i] == AppEvent::Config(None) ==> b == AppAction::Fail(RevealError::MissingAppId)
        } by {
            if i > 0 {
                assert(run[i] == app_run(s, true, rest)[i - 1]);
                assert(evs[i] == rest[i - 1]);
            }
        }
    }
}

} // verus!

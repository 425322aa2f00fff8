//! The client: for each call on the service, what to do next.
//!
//! A call is a conversation. It begins with [`Event::Start`]; the client answers each event with
//! the [`Step`] to take, and the caller comes back with what became of it, until the step is
//! [`Step::Finish`].

use vstd::prelude::*;
use vstd::string::StringExecFns;

use crate::catalog::{
    entry_of, law_region_names_one_by_one, listed, region_names, region_texts, type_rows,
    InstanceTypes,
};
use crate::error::{ClientError, ClientErrorView, LambdaError, LambdaErrorView};
use crate::http::{
    acknowledge, acknowledged, request_view, settle, settled, ApiRequest, Exchange, Method, Receipt,
    RequestView, Wording, WordingView,
};
use crate::images::opt_text;
use crate::json::{json_text, JsonView};
use crate::key::{
    command_key, execute_api_key_command, ApiKeySource, CommandOutcome, KeySourceView,
};
use crate::model::{
    Filesystem, Image, Instance, InstanceTypeData, InstanceTypeResponse, LaunchResponse,
    LaunchResult,
};
use crate::payload::{
    filesystem_body, filesystem_entries, launch_body, launch_entries, launch_order, terminate_body,
    terminate_entries, LaunchOrder,
};
use crate::text::{join, joined, law_texts_are_the_strings, str_same, texts};

verus! {

/// What a caller is asked to do.
pub enum Action {
    /// Run the command that prints the API key.
    RunCommand(String),
    /// Send the request.
    Send(ApiRequest),
}

/// An `Action`, with texts for strings.
pub enum ActionView {
    RunCommand(Seq<char>),
    Send(RequestView),
}

impl View for Action {
    type V = ActionView;

    open spec fn view(&self) -> ActionView {
        match self {
            Action::RunCommand(command) => ActionView::RunCommand(command@),
            Action::Send(request) => ActionView::Send(request@),
        }
    }
}

/// What has become of a call so far. `X` is how its request ends.
pub enum Event<X> {
    /// The call begins.
    Start,
    /// The command for the API key was run.
    KeyCommand(CommandOutcome),
    /// The request was sent.
    Exchanged(X),
}

/// What comes next in a call that yields an `R`.
pub enum Step<R, E> {
    Perform(Action),
    Finish(Result<R, ClientError<E>>),
}

/// A `Step`, with texts for strings.
pub enum StepView<V, E> {
    Perform(ActionView),
    Finish(Result<V, ClientErrorView<E>>),
}

/// What a step says, with the yield of the call seen through `seen`.
pub open spec fn step_view<R, V, E>(step: Step<R, E>, seen: spec_fn(R) -> V) -> StepView<V, E> {
    match step {
        Step::Perform(action) => StepView::Perform(action@),
        Step::Finish(Ok(answer)) => StepView::Finish(Ok(seen(answer))),
        Step::Finish(Err(error)) => StepView::Finish(Err(error@)),
    }
}

/// A client of the service.
pub struct LambdaClient {
    api_key_source: ApiKeySource,
    /// The key that the command printed, once it has been run.
    cached_api_key: Option<String>,
}

/// A `LambdaClient`, with texts for strings.
pub struct ClientView {
    pub source: KeySourceView,
    pub cached: Option<Seq<char>>,
}

impl View for LambdaClient {
    type V = ClientView;

    closed spec fn view(&self) -> ClientView {
        ClientView {
            source: self.api_key_source@,
            cached: match self.cached_api_key {
                Some(key) => Some(key@),
                None => None,
            },
        }
    }
}

impl ClientView {
    /// The API key, where no command has to be run for it.
    pub open spec fn known_key(self) -> Option<Seq<char>> {
        match self.source {
            KeySourceView::Direct(key) => Some(key),
            KeySourceView::Command(_) => self.cached,
        }
    }
}

/// The API key, or the way to it.
pub enum KeyStep {
    /// The key.
    Known(String),
    /// The command that prints it has to be run.
    Run(String),
    /// There is none.
    Failed(LambdaError),
}

/// A `KeyStep`, with texts for strings.
pub enum KeyStepView {
    Known(Seq<char>),
    Run(Seq<char>),
    Failed(LambdaErrorView),
}

impl View for KeyStep {
    type V = KeyStepView;

    open spec fn view(&self) -> KeyStepView {
        match self {
            KeyStep::Known(key) => KeyStepView::Known(key@),
            KeyStep::Run(command) => KeyStepView::Run(command@),
            KeyStep::Failed(error) => KeyStepView::Failed(error@),
        }
    }
}

/// The key of a client, when its command has not been run yet or has just come to `outcome`.
pub open spec fn key_step(client: ClientView, outcome: Option<CommandOutcome>) -> KeyStepView {
    match (client.source, client.cached, outcome) {
        (KeySourceView::Direct(key), _, _) => KeyStepView::Known(key),
        (KeySourceView::Command(_), Some(key), _) => KeyStepView::Known(key),
        (KeySourceView::Command(command), None, None) => KeyStepView::Run(command),
        (KeySourceView::Command(_), None, Some(ended)) => match command_key(ended) {
            Ok(key) => KeyStepView::Known(key),
            Err(error) => KeyStepView::Failed(error),
        },
    }
}

/// The client after it was asked for its key: it keeps the key that a command has printed.
pub open spec fn after_key(client: ClientView, outcome: Option<CommandOutcome>) -> ClientView {
    match (client.known_key(), outcome) {
        (None, Some(ended)) => match command_key(ended) {
            Ok(key) => ClientView { source: client.source, cached: Some(key) },
            Err(_) => client,
        },
        _ => client,
    }
}

/// The client after an event of a call.
pub open spec fn after_event<X>(client: ClientView, event: Event<X>) -> ClientView {
    match event {
        Event::KeyCommand(outcome) => after_key(client, Some(outcome)),
        _ => client,
    }
}

/// How far a call with one request is.
enum Progress<X> {
    /// This is to be done.
    Next(Action),
    /// There is no API key.
    Failed(LambdaError),
    /// The request has ended.
    Ended(X),
}

/// A `Progress`, with texts for strings.
pub enum ProgressView<X> {
    Next(ActionView),
    Failed(LambdaErrorView),
    Ended(X),
}

impl<X> View for Progress<X> {
    type V = ProgressView<X>;

    closed spec fn view(&self) -> ProgressView<X> {
        match self {
            Progress::Next(action) => ProgressView::Next(action@),
            Progress::Failed(error) => ProgressView::Failed(error@),
            Progress::Ended(end) => ProgressView::Ended(*end),
        }
    }
}

/// A request: what `path` is asked to do, and with which body.
pub struct Request {
    pub method: Method,
    pub path: Seq<char>,
    pub body: Option<Seq<char>>,
}

/// The request without a body that reads `path`.
pub open spec fn get(path: Seq<char>) -> Request {
    Request { method: Method::Get, path, body: None }
}

/// The request that hands the JSON object with these entries to `path`.
pub open spec fn post(path: Seq<char>, entries: Map<Seq<char>, JsonView>) -> Request {
    Request { method: Method::Post, path, body: Some(json_text(JsonView::Object(entries))) }
}

/// The request that deletes `path`.
pub open spec fn delete(path: Seq<char>) -> Request {
    Request { method: Method::Delete, path, body: None }
}

/// How far a call is: the key comes first, then the request.
pub open spec fn call_progress<X>(
    client: ClientView,
    event: Event<X>,
    request: Request,
) -> ProgressView<X> {
    let key = match event {
        Event::KeyCommand(outcome) => key_step(client, Some(outcome)),
        _ => key_step(client, None),
    };
    match (event, key) {
        (Event::Exchanged(end), _) => ProgressView::Ended(end),
        (_, KeyStepView::Known(text)) => ProgressView::Next(
            ActionView::Send(request_view(request.method, request.path, text, request.body)),
        ),
        (_, KeyStepView::Run(command)) => ProgressView::Next(ActionView::RunCommand(command)),
        (_, KeyStepView::Failed(error)) => ProgressView::Failed(error),
    }
}

/// The step after an event of a call that makes one request and reads its end with `finish`.
pub open spec fn call_step<X, V, E>(
    client: ClientView,
    event: Event<X>,
    request: Request,
    finish: spec_fn(X) -> Result<V, ClientErrorView<E>>,
) -> StepView<V, E> {
    match call_progress(client, event, request) {
        ProgressView::Next(action) => StepView::Perform(action),
        ProgressView::Failed(error) => StepView::Finish(Err(ClientErrorView::Lambda(error))),
        ProgressView::Ended(end) => StepView::Finish(finish(end)),
    }
}

/// The text of an optional string.
pub open spec fn opt_string(arg: Option<String>) -> Option<Seq<char>> {
    match arg {
        Some(text) => Some(text@),
        None => None,
    }
}

/// What has become of setting up a client from the environment.
pub enum EnvEvent {
    /// The values of `LAMBDA_API_KEY` and `LAMBDA_API_KEY_COMMAND`, where they are set.
    Variables { api_key: Option<String>, command: Option<String> },
    /// The command for the API key was run.
    KeyCommand(CommandOutcome),
}

/// What comes next in setting up a client from the environment.
pub enum EnvStep {
    /// Run the command that prints the API key.
    RunCommand(String),
    Finish(Result<LambdaClient, LambdaError>),
}

/// An `EnvStep`, with texts for strings.
pub enum EnvStepView {
    RunCommand(Seq<char>),
    Finish(Result<ClientView, LambdaErrorView>),
}

impl View for EnvStep {
    type V = EnvStepView;

    open spec fn view(&self) -> EnvStepView {
        match self {
            EnvStep::RunCommand(command) => EnvStepView::RunCommand(command@),
            EnvStep::Finish(Ok(client)) => EnvStepView::Finish(Ok(client@)),
            EnvStep::Finish(Err(error)) => EnvStepView::Finish(Err(error@)),
        }
    }
}

/// A client that has not run anything yet.
pub open spec fn fresh(source: KeySourceView) -> ClientView {
    ClientView { source, cached: None }
}

/// A variable counts where it is set to something.
pub open spec fn is_given(variable: Option<Seq<char>>) -> bool {
    variable is Some && variable->0.len() > 0
}

/// How a client is set up from the environment: the key goes before the command, which a lazy
/// client runs later.
pub open spec fn env_step(lazy: bool, event: EnvEvent) -> EnvStepView {
    match event {
        EnvEvent::Variables { api_key, command } => {
            if is_given(opt_string(api_key)) {
                EnvStepView::Finish(Ok(fresh(KeySourceView::Direct(api_key->0@))))
            } else if is_given(opt_string(command)) {
                if lazy {
                    EnvStepView::Finish(Ok(fresh(KeySourceView::Command(command->0@))))
                } else {
                    EnvStepView::RunCommand(command->0@)
                }
            } else {
                EnvStepView::Finish(Err(LambdaErrorView::ApiKeyNotSet))
            }
        },
        EnvEvent::KeyCommand(outcome) => match command_key(outcome) {
            Ok(key) => EnvStepView::Finish(Ok(fresh(KeySourceView::Direct(key)))),
            Err(error) => EnvStepView::Finish(Err(error)),
        },
    }
}

pub open spec fn validate_api_key_words() -> WordingView {
    WordingView {
        sending: "Failed to connect to Lambda API"@,
        refusal: "API key validation failed"@,
        shows_status: true,
    }
}

pub open spec fn list_instance_types_words() -> WordingView {
    WordingView {
        sending: "Failed to fetch instance types"@,
        refusal: "Failed to list instances"@,
        shows_status: false,
    }
}

pub open spec fn list_images_words() -> WordingView {
    WordingView {
        sending: "Failed to fetch images"@,
        refusal: "Failed to list images"@,
        shows_status: false,
    }
}

pub open spec fn get_instance_type_words() -> WordingView {
    WordingView {
        sending: "Failed to fetch instance types"@,
        refusal: "Failed to get instance types"@,
        shows_status: false,
    }
}

pub open spec fn launch_words() -> WordingView {
    WordingView {
        sending: "Failed to send launch request"@,
        refusal: "Failed to launch instance"@,
        shows_status: false,
    }
}

pub open spec fn terminate_words() -> WordingView {
    WordingView {
        sending: "Failed to send terminate request"@,
        refusal: "Failed to terminate instance"@,
        shows_status: false,
    }
}

pub open spec fn list_running_instances_words() -> WordingView {
    WordingView {
        sending: "Failed to fetch running instances"@,
        refusal: "Failed to list running instances"@,
        shows_status: false,
    }
}

pub open spec fn get_instance_words() -> WordingView {
    WordingView {
        sending: "Failed to fetch instance details"@,
        refusal: "Failed to get instance details"@,
        shows_status: true,
    }
}

pub open spec fn list_filesystems_words() -> WordingView {
    WordingView {
        sending: "Failed to fetch filesystems"@,
        refusal: "Failed to list filesystems"@,
        shows_status: false,
    }
}

pub open spec fn create_filesystem_words() -> WordingView {
    WordingView {
        sending: "Failed to create filesystem"@,
        refusal: "Failed to create filesystem"@,
        shows_status: false,
    }
}

pub open spec fn delete_filesystem_words() -> WordingView {
    WordingView {
        sending: "Failed to delete filesystem"@,
        refusal: "Failed to delete filesystem"@,
        shows_status: false,
    }
}

/// The instance type that is asked for, as far as the service has it.
pub open spec fn found_type<E>(end: Exchange<InstanceTypes, E>, gpu: Seq<char>) -> Result<
    Option<InstanceTypeResponse>,
    ClientErrorView<E>,
> {
    match settled(end, get_instance_type_words(), "Failed to parse instance types"@) {
        Ok(types) => Ok(entry_of(types@, gpu)),
        Err(error) => Err(error),
    }
}

/// The regions in which there is capacity for an instance type.
pub open spec fn available_regions<E>(
    found: Option<InstanceTypeResponse>,
    gpu: Seq<char>,
) -> Result<Seq<Seq<char>>, ClientErrorView<E>> {
    match found {
        Some(data) => Ok(region_texts(data.regions_with_capacity_available@)),
        None => Err(ClientErrorView::Lambda(LambdaErrorView::InstanceTypeNotFound(gpu))),
    }
}

/// The region of a launch: the one that is asked for, if there is capacity in it, or else the
/// first with capacity.
pub open spec fn chosen_region<E>(
    found: Option<InstanceTypeResponse>,
    gpu: Seq<char>,
    region: Option<Seq<char>>,
) -> Result<Seq<char>, ClientErrorView<E>> {
    match (available_regions(found, gpu), region) {
        (Err(error), _) => Err(error),
        (Ok(names), Some(name)) => if names.contains(name) {
            Ok(name)
        } else {
            Err(
                ClientErrorView::Message(
                    "Region '"@ + name + "' is not available for instance type '"@ + gpu
                        + "'. Available regions: "@ + joined(names, ", "@),
                ),
            )
        },
        (Ok(names), None) => if names.len() > 0 {
            Ok(names[0])
        } else {
            Err(ClientErrorView::Lambda(LambdaErrorView::NoRegionsAvailable(gpu)))
        },
    }
}

/// A `LaunchResult`, with texts for strings.
pub struct LaunchView {
    pub instance_id: Seq<char>,
    pub region: Seq<char>,
}

impl View for LaunchResult {
    type V = LaunchView;

    open spec fn view(&self) -> LaunchView {
        LaunchView { instance_id: self.instance_id@, region: self.region@ }
    }
}

/// The instance that a launch came to: the first that the service names.
pub open spec fn launched<E>(end: Exchange<LaunchResponse, E>, region: Seq<char>) -> Result<
    LaunchView,
    ClientErrorView<E>,
> {
    match settled(end, launch_words(), "Failed to parse launch response"@) {
        Ok(response) => if response.instance_ids@.len() > 0 {
            Ok(LaunchView { instance_id: response.instance_ids@[0]@, region })
        } else {
            Err(ClientErrorView::Lambda(LambdaErrorView::NoInstanceIds))
        },
        Err(error) => Err(error),
    }
}

/// What has become of a launch so far. The instance type is looked up first; then the launch is
/// submitted for a region. A launch begins with `Lookup(Event::Start)`; each later event tells what
/// became of the step before it, and carries on the region of that step.
pub enum LaunchEvent<E> {
    Lookup(Event<Exchange<InstanceTypes, E>>),
    Submit(String, Event<Exchange<LaunchResponse, E>>),
}

/// What comes next in a launch.
pub enum LaunchStep<E> {
    /// To be done for looking the instance type up.
    Lookup(Action),
    /// To be done for submitting the launch for this region.
    Submit(String, Action),
    Finish(Result<LaunchResult, ClientError<E>>),
}

/// A `LaunchStep`, with texts for strings.
pub enum LaunchStepView<E> {
    Lookup(ActionView),
    Submit(Seq<char>, ActionView),
    Finish(Result<LaunchView, ClientErrorView<E>>),
}

impl<E> View for LaunchStep<E> {
    type V = LaunchStepView<E>;

    open spec fn view(&self) -> LaunchStepView<E> {
        match self {
            LaunchStep::Lookup(action) => LaunchStepView::Lookup(action@),
            LaunchStep::Submit(region, action) => LaunchStepView::Submit(region@, action@),
            LaunchStep::Finish(Ok(launch)) => LaunchStepView::Finish(Ok(launch@)),
            LaunchStep::Finish(Err(error)) => LaunchStepView::Finish(Err(error@)),
        }
    }
}

/// The step after an event of submitting a launch.
pub open spec fn submit_step<E>(
    client: ClientView,
    order: LaunchOrder,
    region: Seq<char>,
    event: Event<Exchange<LaunchResponse, E>>,
) -> LaunchStepView<E> {
    match call_step(
        client,
        event,
        post("/instance-operations/launch"@, launch_entries(order, region)),
        |end: Exchange<LaunchResponse, E>| launched(end, region),
    ) {
        StepView::Perform(action) => LaunchStepView::Submit(region, action),
        StepView::Finish(result) => LaunchStepView::Finish(result),
    }
}

/// The step after an event of a launch.
pub open spec fn launch_step<E>(
    client: ClientView,
    order: LaunchOrder,
    region: Option<Seq<char>>,
    event: LaunchEvent<E>,
) -> LaunchStepView<E> {
    match event {
        LaunchEvent::Lookup(inner) => match call_step(
            client,
            inner,
            get("/instance-types"@),
            |end: Exchange<InstanceTypes, E>| found_type(end, order.gpu),
        ) {
            StepView::Perform(action) => LaunchStepView::Lookup(action),
            StepView::Finish(Err(error)) => LaunchStepView::Finish(Err(error)),
            StepView::Finish(Ok(found)) => match chosen_region::<E>(found, order.gpu, region) {
                Ok(name) => submit_step(client, order, name, Event::Start),
                Err(error) => LaunchStepView::Finish(Err(error)),
            },
        },
        LaunchEvent::Submit(name, inner) => submit_step(client, order, name@, inner),
    }
}

/// The request of a launch, where one has ended, counts as refused exactly when its status is none
/// of success. This holds of every event that can be made.
pub open spec fn launch_goes_by_status<E>(event: LaunchEvent<E>) -> bool {
    match event {
        LaunchEvent::Lookup(Event::Exchanged(end)) => end.goes_by_status(),
        LaunchEvent::Submit(_, Event::Exchanged(end)) => end.goes_by_status(),
        _ => true,
    }
}

/// The client after an event of a launch.
pub open spec fn after_launch_event<E>(client: ClientView, event: LaunchEvent<E>) -> ClientView {
    match event {
        LaunchEvent::Lookup(inner) => after_event(client, inner),
        LaunchEvent::Submit(_, inner) => after_event(client, inner),
    }
}

/// The region of a launch: the one that is asked for, if there is capacity in it, or else the
/// first with capacity.
pub fn choose_region<E>(
    found: Option<InstanceTypeResponse>,
    gpu: &str,
    region: Option<&str>,
) -> (chosen: Result<String, ClientError<E>>)
    ensures
        match chosen {
            Ok(name) => chosen_region::<E>(found, gpu@, opt_text(region)) == Ok::<
                Seq<char>,
                ClientErrorView<E>,
            >(name@),
            Err(error) => chosen_region::<E>(found, gpu@, opt_text(region)) == Err::<
                Seq<char>,
                ClientErrorView<E>,
            >(error@),
        },
{
    let data = match found {
        Some(data) => data,
        None => return Err(ClientError::Lambda(LambdaError::InstanceTypeNotFound(gpu.to_owned()))),
    };
    let names = region_names(&data.regions_with_capacity_available);
    let ghost available = texts(names@);
    match region {
        Some(r) => {
            let mut i: usize = 0;
            while i < names.len()
                invariant
                    i <= names@.len(),
                    available == texts(names@),
                    available == region_texts(data.regions_with_capacity_available@),
                    found == Some(data),
                    region == Some(r),
                    forall|k: int| 0 <= k < i ==> #[trigger] available[k] != r@,
                decreases names@.len() - i,
            {
                assert(available[i as int] == names@[i as int]@);
                if str_same(names[i].as_str(), r) {
                    return Ok(r.to_owned());
                }
                i += 1;
            }
            assert(!available.contains(r@));
            let listing = join(&names, ", ");
            Err(
                ClientError::Message(
                    "Region '".to_owned().concat(r).concat(
                        "' is not available for instance type '",
                    ).concat(gpu).concat("'. Available regions: ").concat(listing.as_str()),
                ),
            )
        },
        None => {
            if names.len() > 0 {
                assert(available[0] == names@[0]@);
                Ok(names[0].clone())
            } else {
                Err(ClientError::Lambda(LambdaError::NoRegionsAvailable(gpu.to_owned())))
            }
        },
    }
}

impl LambdaClient {
    /// A client with this API key.
    pub fn new(api_key: String) -> (client: LambdaClient)
        ensures
            client@ == fresh(KeySourceView::Direct(api_key@)),
    {
        LambdaClient { api_key_source: ApiKeySource::Direct(api_key), cached_api_key: None }
    }

    /// A client that runs a command for its API key when it first needs one.
    pub fn new_lazy(api_key_source: ApiKeySource) -> (client: LambdaClient)
        ensures
            client@ == fresh(api_key_source@),
    {
        LambdaClient { api_key_source, cached_api_key: None }
    }

    /// Sets a client up from the environment. Where the API key comes from a command, the command
    /// is run at once.
    pub fn from_env(event: EnvEvent) -> (step: EnvStep)
        ensures
            step@ == env_step(false, event),
    {
        Self::from_env_with_options(false, event)
    }

    /// Sets a client up from the environment: from `LAMBDA_API_KEY`, or else from
    /// `LAMBDA_API_KEY_COMMAND`. With `lazy` the command is not run before the first request.
    pub fn from_env_with_options(lazy: bool, event: EnvEvent) -> (step: EnvStep)
        ensures
            step@ == env_step(lazy, event),
    {
        match event {
            EnvEvent::Variables { api_key, command } => {
                if let Some(key) = api_key {
                    if !key.as_str().is_empty() {
                        return EnvStep::Finish(Ok(Self::new(key)));
                    }
                }
                if let Some(line) = command {
                    if !line.as_str().is_empty() {
                        return if lazy {
                            EnvStep::Finish(Ok(Self::new_lazy(ApiKeySource::Command(line))))
                        } else {
                            EnvStep::RunCommand(line)
                        };
                    }
                }
                EnvStep::Finish(Err(LambdaError::ApiKeyNotSet))
            },
            EnvEvent::KeyCommand(outcome) => match execute_api_key_command(outcome) {
                Ok(key) => EnvStep::Finish(Ok(Self::new(key))),
                Err(error) => EnvStep::Finish(Err(error)),
            },
        }
    }

    /// The API key. A command is run when the key is first needed, and its key is kept.
    pub fn get_api_key(&mut self, outcome: Option<CommandOutcome>) -> (step: KeyStep)
        ensures
            step@ == key_step(old(self)@, outcome),
            final(self)@ == after_key(old(self)@, outcome),
    {
        match &self.api_key_source {
            ApiKeySource::Direct(key) => KeyStep::Known(key.clone()),
            ApiKeySource::Command(command) => match &self.cached_api_key {
                Some(key) => KeyStep::Known(key.clone()),
                None => match outcome {
                    None => KeyStep::Run(command.clone()),
                    Some(ended) => match execute_api_key_command(ended) {
                        Ok(key) => {
                            self.cached_api_key = Some(key.clone());
                            KeyStep::Known(key)
                        },
                        Err(error) => KeyStep::Failed(error),
                    },
                },
            },
        }
    }

    fn advance<X>(
        &mut self,
        event: Event<X>,
        method: Method,
        path: &str,
        body: Option<String>,
    ) -> (progress: Progress<X>)
        ensures
            progress@ == call_progress(
                old(self)@,
                event,
                (Request { method, path: path@, body: opt_string(body) }),
            ),
            final(self)@ == after_event(old(self)@, event),
    {
        let outcome = match event {
            Event::Exchanged(end) => return Progress::Ended(end),
            Event::Start => None,
            Event::KeyCommand(outcome) => Some(outcome),
        };
        match self.get_api_key(outcome) {
            KeyStep::Known(key) => Progress::Next(
                Action::Send(ApiRequest::new(method, path, key.as_str(), body)),
            ),
            KeyStep::Run(command) => Progress::Next(Action::RunCommand(command)),
            KeyStep::Failed(error) => Progress::Failed(error),
        }
    }

    /// Checks the API key by a request.
    pub fn validate_api_key<E>(&mut self, event: Event<Receipt<E>>) -> (step: Step<(), E>)
        ensures
            step_view(step, |done: ()| done) == call_step(
                old(self)@,
                event,
                get("/instances"@),
                |end: Receipt<E>| acknowledged(end, validate_api_key_words()),
            ),
            event matches Event::Exchanged(end) ==> end.goes_by_status(),
            final(self)@ == after_event(old(self)@, event),
    {
        let words = Wording {
            sending: "Failed to connect to Lambda API",
            refusal: "API key validation failed",
            shows_status: true,
        };
        match self.advance(event, Method::Get, "/instances", None) {
            Progress::Next(action) => Step::Perform(action),
            Progress::Failed(error) => Step::Finish(Err(ClientError::Lambda(error))),
            Progress::Ended(end) => Step::Finish(acknowledge(end, &words)),
        }
    }

    /// Lists the instance types, sorted by name.
    pub fn list_instance_types<E>(&mut self, event: Event<Exchange<InstanceTypes, E>>) -> (step:
        Step<Vec<InstanceTypeData>, E>)
        ensures
            step_view(step, |list: Vec<InstanceTypeData>| ()) == call_step(
                old(self)@,
                event,
                get("/instance-types"@),
                |end: Exchange<InstanceTypes, E>|
                    match settled(end, list_instance_types_words(), "Failed to parse instance types response"@) {
                        Ok(_) => Ok(()),
                        Err(error) => Err(error),
                    },
            ),
            step matches Step::Finish(Ok(list)) ==> event matches Event::Exchanged(
                Exchange::Answered(_, response),
            ) && listed(response.data@, type_rows(list@)),
            event matches Event::Exchanged(end) ==> end.goes_by_status(),
            final(self)@ == after_event(old(self)@, event),
    {
        let words = Wording {
            sending: "Failed to fetch instance types",
            refusal: "Failed to list instances",
            shows_status: false,
        };
        match self.advance(event, Method::Get, "/instance-types", None) {
            Progress::Next(action) => Step::Perform(action),
            Progress::Failed(error) => Step::Finish(Err(ClientError::Lambda(error))),
            Progress::Ended(end) => match settle(end, &words, "Failed to parse instance types response") {
                Ok(types) => Step::Finish(Ok(types.list())),
                Err(error) => Step::Finish(Err(error)),
            },
        }
    }

    /// Lists the machine images.
    pub fn list_images<E>(&mut self, event: Event<Exchange<Vec<Image>, E>>) -> (step: Step<
        Vec<Image>,
        E,
    >)
        ensures
            step_view(step, |images: Vec<Image>| images) == call_step(
                old(self)@,
                event,
                get("/images"@),
                |end: Exchange<Vec<Image>, E>| settled(end, list_images_words(), "Failed to parse images response"@),
            ),
            event matches Event::Exchanged(end) ==> end.goes_by_status(),
            final(self)@ == after_event(old(self)@, event),
    {
        let words = Wording {
            sending: "Failed to fetch images",
            refusal: "Failed to list images",
            shows_status: false,
        };
        match self.advance(event, Method::Get, "/images", None) {
            Progress::Next(action) => Step::Perform(action),
            Progress::Failed(error) => Step::Finish(Err(ClientError::Lambda(error))),
            Progress::Ended(end) => Step::Finish(settle(end, &words, "Failed to parse images response")),
        }
    }

    /// Looks one instance type up.
    pub fn get_instance_type<E>(
        &mut self,
        gpu: &str,
        event: Event<Exchange<InstanceTypes, E>>,
    ) -> (step: Step<Option<InstanceTypeResponse>, E>)
        ensures
            step_view(step, |found: Option<InstanceTypeResponse>| found) == call_step(
                old(self)@,
                event,
                get("/instance-types"@),
                |end: Exchange<InstanceTypes, E>| found_type(end, gpu@),
            ),
            event matches Event::Exchanged(end) ==> end.goes_by_status(),
            final(self)@ == after_event(old(self)@, event),
    {
        let words = Wording {
            sending: "Failed to fetch instance types",
            refusal: "Failed to get instance types",
            shows_status: false,
        };
        match self.advance(event, Method::Get, "/instance-types", None) {
            Progress::Next(action) => Step::Perform(action),
            Progress::Failed(error) => Step::Finish(Err(ClientError::Lambda(error))),
            Progress::Ended(end) => match settle(end, &words, "Failed to parse instance types") {
                Ok(types) => Step::Finish(Ok(types.take(gpu))),
                Err(error) => Step::Finish(Err(error)),
            },
        }
    }

    /// Launches an instance.
    pub fn launch_instance<E>(
        &mut self,
        gpu: &str,
        ssh_key: &str,
        name: Option<&str>,
        region: Option<&str>,
        event: LaunchEvent<E>,
    ) -> (step: LaunchStep<E>)
        ensures
            step@ == launch_step(
                old(self)@,
                launch_order(gpu, ssh_key, name, None, None),
                opt_text(region),
                event,
            ),
            launch_goes_by_status(event),
            final(self)@ == after_launch_event(old(self)@, event),
    {
        self.launch_instance_with_filesystem(gpu, ssh_key, name, region, None, None, event)
    }

    fn submit_launch<E>(
        &mut self,
        gpu: &str,
        ssh_key: &str,
        name: Option<&str>,
        filesystem: Option<&str>,
        image: Option<&str>,
        region_name: String,
        event: Event<Exchange<LaunchResponse, E>>,
    ) -> (step: LaunchStep<E>)
        ensures
            step@ == submit_step(
                old(self)@,
                launch_order(gpu, ssh_key, name, filesystem, image),
                region_name@,
                event,
            ),
            event matches Event::Exchanged(end) ==> end.goes_by_status(),
            final(self)@ == after_event(old(self)@, event),
    {
        let words = Wording {
            sending: "Failed to send launch request",
            refusal: "Failed to launch instance",
            shows_status: false,
        };
        let body = launch_body(gpu, ssh_key, name, region_name.as_str(), filesystem, image);
        match self.advance(event, Method::Post, "/instance-operations/launch", Some(body)) {
            Progress::Next(action) => LaunchStep::Submit(region_name, action),
            Progress::Failed(error) => LaunchStep::Finish(Err(ClientError::Lambda(error))),
            Progress::Ended(end) => match settle(end, &words, "Failed to parse launch response") {
                Ok(response) => {
                    if response.instance_ids.len() > 0 {
                        let instance_id = response.instance_ids[0].clone();
                        LaunchStep::Finish(Ok(LaunchResult { instance_id, region: region_name }))
                    } else {
                        LaunchStep::Finish(Err(ClientError::Lambda(LambdaError::NoInstanceIds)))
                    }
                },
                Err(error) => LaunchStep::Finish(Err(error)),
            },
        }
    }

    /// Launches an instance, with a filesystem attached and from an image family where they are
    /// given. Without an image it is launched with the default family.
    pub fn launch_instance_with_filesystem<E>(
        &mut self,
        gpu: &str,
        ssh_key: &str,
        name: Option<&str>,
        region: Option<&str>,
        filesystem: Option<&str>,
        image: Option<&str>,
        event: LaunchEvent<E>,
    ) -> (step: LaunchStep<E>)
        ensures
            step@ == launch_step(
                old(self)@,
                launch_order(gpu, ssh_key, name, filesystem, image),
                opt_text(region),
                event,
            ),
            launch_goes_by_status(event),
            final(self)@ == after_launch_event(old(self)@, event),
    {
        match event {
            LaunchEvent::Lookup(inner) => match self.get_instance_type(gpu, inner) {
                Step::Perform(action) => LaunchStep::Lookup(action),
                Step::Finish(Err(error)) => LaunchStep::Finish(Err(error)),
                Step::Finish(Ok(found)) => match choose_region(found, gpu, region) {
                    Ok(region_name) => self.submit_launch(
                        gpu,
                        ssh_key,
                        name,
                        filesystem,
                        image,
                        region_name,
                        Event::Start,
                    ),
                    Err(error) => LaunchStep::Finish(Err(error)),
                },
            },
            LaunchEvent::Submit(region_name, inner) => self.submit_launch(
                gpu,
                ssh_key,
                name,
                filesystem,
                image,
                region_name,
                inner,
            ),
        }
    }

    /// Terminates an instance.
    pub fn terminate_instance<E>(&mut self, instance_id: &str, event: Event<Receipt<E>>) -> (step:
        Step<(), E>)
        ensures
            step_view(step, |done: ()| done) == call_step(
                old(self)@,
                event,
                post("/instance-operations/terminate"@, terminate_entries(instance_id@)),
                |end: Receipt<E>| acknowledged(end, terminate_words()),
            ),
            event matches Event::Exchanged(end) ==> end.goes_by_status(),
            final(self)@ == after_event(old(self)@, event),
    {
        let words = Wording {
            sending: "Failed to send terminate request",
            refusal: "Failed to terminate instance",
            shows_status: false,
        };
        let body = terminate_body(instance_id);
        match self.advance(event, Method::Post, "/instance-operations/terminate", Some(body)) {
            Progress::Next(action) => Step::Perform(action),
            Progress::Failed(error) => Step::Finish(Err(ClientError::Lambda(error))),
            Progress::Ended(end) => Step::Finish(acknowledge(end, &words)),
        }
    }

    /// Lists the running instances.
    pub fn list_running_instances<E>(&mut self, event: Event<Exchange<Vec<Instance>, E>>) -> (step:
        Step<Vec<Instance>, E>)
        ensures
            step_view(step, |instances: Vec<Instance>| instances) == call_step(
                old(self)@,
                event,
                get("/instances"@),
                |end: Exchange<Vec<Instance>, E>| settled(end, list_running_instances_words(), "Failed to parse running instances response"@),
            ),
            event matches Event::Exchanged(end) ==> end.goes_by_status(),
            final(self)@ == after_event(old(self)@, event),
    {
        let words = Wording {
            sending: "Failed to fetch running instances",
            refusal: "Failed to list running instances",
            shows_status: false,
        };
        match self.advance(event, Method::Get, "/instances", None) {
            Progress::Next(action) => Step::Perform(action),
            Progress::Failed(error) => Step::Finish(Err(ClientError::Lambda(error))),
            Progress::Ended(end) => Step::Finish(settle(end, &words, "Failed to parse running instances response")),
        }
    }

    /// Gets the details of one instance.
    pub fn get_instance<E>(
        &mut self,
        instance_id: &str,
        event: Event<Exchange<Instance, E>>,
    ) -> (step: Step<Instance, E>)
        ensures
            step_view(step, |instance: Instance| instance) == call_step(
                old(self)@,
                event,
                get("/instances/"@ + instance_id@),
                |end: Exchange<Instance, E>| settled(end, get_instance_words(), "Failed to parse instance details"@),
            ),
            event matches Event::Exchanged(end) ==> end.goes_by_status(),
            final(self)@ == after_event(old(self)@, event),
    {
        let words = Wording {
            sending: "Failed to fetch instance details",
            refusal: "Failed to get instance details",
            shows_status: true,
        };
        let path = "/instances/".to_owned().concat(instance_id);
        match self.advance(event, Method::Get, path.as_str(), None) {
            Progress::Next(action) => Step::Perform(action),
            Progress::Failed(error) => Step::Finish(Err(ClientError::Lambda(error))),
            Progress::Ended(end) => Step::Finish(settle(end, &words, "Failed to parse instance details")),
        }
    }

    /// Lists the regions in which there is capacity for an instance type.
    pub fn check_availability<E>(
        &mut self,
        gpu: &str,
        event: Event<Exchange<InstanceTypes, E>>,
    ) -> (step: Step<Vec<String>, E>)
        ensures
            step_view(step, |names: Vec<String>| texts(names@)) == call_step(
                old(self)@,
                event,
                get("/instance-types"@),
                |end: Exchange<InstanceTypes, E>|
                    match found_type(end, gpu@) {
                        Ok(found) => available_regions(found, gpu@),
                        Err(error) => Err(error),
                    },
            ),
            step matches Step::Finish(Ok(names)) ==> event matches Event::Exchanged(
                Exchange::Answered(_, response),
            ) && response.data@.dom().contains(gpu@) && names@.len()
                == response.data@[gpu@].regions_with_capacity_available@.len() && (forall|k: int|
                0 <= k < names@.len() ==> (#[trigger] names@[k])@
                    == response.data@[gpu@].regions_with_capacity_available@[k].name@),
            event matches Event::Exchanged(end) ==> end.goes_by_status(),
            final(self)@ == after_event(old(self)@, event),
    {
        match self.get_instance_type(gpu, event) {
            Step::Perform(action) => Step::Perform(action),
            Step::Finish(Err(error)) => Step::Finish(Err(error)),
            Step::Finish(Ok(Some(data))) => {
                let names = region_names(&data.regions_with_capacity_available);
                proof {
                    law_texts_are_the_strings(names@);
                    law_region_names_one_by_one(data.regions_with_capacity_available@);
                    assert forall|k: int| 0 <= k < names@.len() implies (#[trigger] names@[k])@
                        == data.regions_with_capacity_available@[k].name@ by {
                        assert(texts(names@)[k] == names@[k]@);
                    }
                }
                Step::Finish(Ok(names))
            },
            Step::Finish(Ok(None)) => Step::Finish(
                Err(ClientError::Lambda(LambdaError::InstanceTypeNotFound(gpu.to_owned()))),
            ),
        }
    }

    /// Lists the filesystems.
    pub fn list_filesystems<E>(&mut self, event: Event<Exchange<Vec<Filesystem>, E>>) -> (step:
        Step<Vec<Filesystem>, E>)
        ensures
            step_view(step, |filesystems: Vec<Filesystem>| filesystems) == call_step(
                old(self)@,
                event,
                get("/file-systems"@),
                |end: Exchange<Vec<Filesystem>, E>| settled(end, list_filesystems_words(), "Failed to parse filesystems response"@),
            ),
            event matches Event::Exchanged(end) ==> end.goes_by_status(),
            final(self)@ == after_event(old(self)@, event),
    {
        let words = Wording {
            sending: "Failed to fetch filesystems",
            refusal: "Failed to list filesystems",
            shows_status: false,
        };
        match self.advance(event, Method::Get, "/file-systems", None) {
            Progress::Next(action) => Step::Perform(action),
            Progress::Failed(error) => Step::Finish(Err(ClientError::Lambda(error))),
            Progress::Ended(end) => Step::Finish(settle(end, &words, "Failed to parse filesystems response")),
        }
    }

    /// Creates a filesystem.
    pub fn create_filesystem<E>(
        &mut self,
        name: &str,
        region: &str,
        event: Event<Exchange<Filesystem, E>>,
    ) -> (step: Step<Filesystem, E>)
        ensures
            step_view(step, |filesystem: Filesystem| filesystem) == call_step(
                old(self)@,
                event,
                post("/file-systems"@, filesystem_entries(name@, region@)),
                |end: Exchange<Filesystem, E>| settled(end, create_filesystem_words(), "Failed to parse create filesystem response"@),
            ),
            event matches Event::Exchanged(end) ==> end.goes_by_status(),
            final(self)@ == after_event(old(self)@, event),
    {
        let words = Wording {
            sending: "Failed to create filesystem",
            refusal: "Failed to create filesystem",
            shows_status: false,
        };
        let body = filesystem_body(name, region);
        match self.advance(event, Method::Post, "/file-systems", Some(body)) {
            Progress::Next(action) => Step::Perform(action),
            Progress::Failed(error) => Step::Finish(Err(ClientError::Lambda(error))),
            Progress::Ended(end) => Step::Finish(settle(end, &words, "Failed to parse create filesystem response")),
        }
    }

    /// Deletes a filesystem.
    pub fn delete_filesystem<E>(
        &mut self,
        filesystem_id: &str,
        event: Event<Receipt<E>>,
    ) -> (step: Step<(), E>)
        ensures
            step_view(step, |done: ()| done) == call_step(
                old(self)@,
                event,
                delete("/file-systems/"@ + filesystem_id@),
                |end: Receipt<E>| acknowledged(end, delete_filesystem_words()),
            ),
            event matches Event::Exchanged(end) ==> end.goes_by_status(),
            final(self)@ == after_event(old(self)@, event),
    {
        let words = Wording {
            sending: "Failed to delete filesystem",
            refusal: "Failed to delete filesystem",
            shows_status: false,
        };
        let path = "/file-systems/".to_owned().concat(filesystem_id);
        match self.advance(event, Method::Delete, path.as_str(), None) {
            Progress::Next(action) => Step::Perform(action),
            Progress::Failed(error) => Step::Finish(Err(ClientError::Lambda(error))),
            Progress::Ended(end) => Step::Finish(acknowledge(end, &words)),
        }
    }
}

} // verus!

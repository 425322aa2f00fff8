//! What the client does, told from its inputs to its results.

use vstd::prelude::*;

use crate::catalog::{entry_of, law_region_names_one_by_one, region_texts, InstanceTypes};
use crate::client::{
    after_event, after_key, after_launch_event, available_regions, call_progress, call_step,
    chosen_region, create_filesystem_words, delete, delete_filesystem_words, env_step, found_type,
    fresh, get, get_instance_type_words, get_instance_words, key_step, launch_step, launch_words,
    launched, list_filesystems_words, list_images_words, list_instance_types_words,
    list_running_instances_words, opt_string, post, step_view, terminate_words,
    validate_api_key_words, Action, ActionView, ClientView, EnvEvent, EnvStep, EnvStepView, Event,
    KeyStep, KeyStepView, LambdaClient, LaunchEvent, LaunchStep, LaunchStepView, LaunchView,
    ProgressView, Request, Step, StepView,
};
use crate::error::{ClientError, ClientErrorView, LambdaError, LambdaErrorView};
use crate::http::{settled, ApiRequest, Exchange, Method, RequestView};
use crate::images::opt_text;
use crate::json::{json_text, JsonView};
use crate::key::{command_key, CommandOutcome, KeySourceView};
use crate::model::{InstanceTypeResponse, LaunchResponse, LaunchResult};
use crate::payload::{
    launch_entries, launch_order, law_launch_body_carries_every_argument, LaunchOrder,
};
use crate::text::{is_blank, is_white_space, joined};

verus! {

/// A client that was given its key sends the request of a call at once: to the path at the service,
/// with just that key, whatever it is, and with the method and the body of the call.
pub proof fn law_given_key_goes_into_every_request<X>(
    key: Seq<char>,
    cached: Option<Seq<char>>,
    event: Event<X>,
    request: Request,
)
    requires
        !(event is Exchanged),
    ensures
        ({
            let client = ClientView { source: KeySourceView::Direct(key), cached };
            let progress = call_progress(client, event, request);
            &&& progress matches ProgressView::Next(ActionView::Send(sent)) && sent.method
                == request.method && sent.url == "https://cloud.lambdalabs.com/api/v1"@ + request.path && sent.authorization
                == "Bearer "@ + key && sent.body == request.body
            &&& after_event(client, event) == client
        }),
{
}

/// A client that has got its key from a command sends the request of a call at once, with just that
/// key.
pub proof fn law_kept_key_goes_into_every_request<X>(
    command: Seq<char>,
    key: Seq<char>,
    event: Event<X>,
    request: Request,
)
    requires
        !(event is Exchanged),
    ensures
        ({
            let client = ClientView {
                source: KeySourceView::Command(command),
                cached: Some(key),
            };
            let progress = call_progress(client, event, request);
            &&& progress matches ProgressView::Next(ActionView::Send(sent)) && sent.method
                == request.method && sent.url == "https://cloud.lambdalabs.com/api/v1"@ + request.path && sent.authorization
                == "Bearer "@ + key && sent.body == request.body
            &&& after_event(client, event) == client
        }),
{
}

/// A client that has not got its key yet has its command run first, as it stands. The key that the
/// command comes to goes into the request and is kept; without one the call fails with the reason,
/// and the client is as before.
pub proof fn law_printed_key_goes_into_the_request<X>(
    command: Seq<char>,
    outcome: CommandOutcome,
    request: Request,
)
    ensures
        ({
            let client = ClientView { source: KeySourceView::Command(command), cached: None };
            let told = Event::<X>::KeyCommand(outcome);
            &&& call_progress(client, Event::<X>::Start, request) == ProgressView::<X>::Next(
                ActionView::RunCommand(command),
            )
            &&& after_event(client, Event::<X>::Start) == client
            &&& command_key(outcome) matches Ok(key) ==> {
                &&& call_progress(client, told, request) matches ProgressView::Next(
                    ActionView::Send(sent),
                ) && sent.method == request.method && sent.url == "https://cloud.lambdalabs.com/api/v1"@ + request.path
                    && sent.authorization == "Bearer "@ + key && sent.body == request.body
                &&& after_event(client, told).source == KeySourceView::Command(command)
                &&& after_event(client, told).cached == Some(key)
            }
            &&& command_key(outcome) matches Err(error) ==> {
                &&& call_progress(client, told, request) == ProgressView::<X>::Failed(error)
                &&& after_event(client, told) == client
            }
        }),
{
}

/// The end of a request ends the call, and leaves the client as it is.
pub proof fn law_end_of_the_request_ends_the_call<X>(client: ClientView, end: X, request: Request)
    ensures
        call_progress(client, Event::Exchanged(end), request) == ProgressView::Ended(end),
        after_event(client, Event::Exchanged(end)) == client,
{
}

/// A call does what is next, fails for want of a key, or comes to what its end is read as.
pub proof fn law_step_follows_the_progress<X, V, E>(
    client: ClientView,
    event: Event<X>,
    request: Request,
    finish: spec_fn(X) -> Result<V, ClientErrorView<E>>,
)
    ensures
        ({
            let step = call_step(client, event, request, finish);
            match call_progress(client, event, request) {
                ProgressView::Next(action) => step == StepView::<V, E>::Perform(action),
                ProgressView::Failed(error) => step == StepView::<V, E>::Finish(
                    Err(ClientErrorView::Lambda(error)),
                ),
                ProgressView::Ended(end) => step == StepView::Finish(finish(end)),
            }
        }),
{
}

/// A client that is asked for its key tells it: the one that it was given, or the one that it keeps;
/// else it has its command run, and tells the key that this comes to, or why there is none.
pub proof fn law_client_tells_its_key(
    text: Seq<char>,
    cached: Option<Seq<char>>,
    outcome: Option<CommandOutcome>,
)
    ensures
        ({
            let given = ClientView { source: KeySourceView::Direct(text), cached };
            let running = ClientView { source: KeySourceView::Command(text), cached };
            &&& key_step(given, outcome) == KeyStepView::Known(text)
            &&& given.known_key() == Some(text)
            &&& after_key(given, outcome) == given
            &&& running.known_key() == cached
            &&& cached matches Some(key) ==> key_step(running, outcome) == KeyStepView::Known(key)
                && after_key(running, outcome) == running
            &&& cached is None && outcome is None ==> key_step(running, outcome)
                == KeyStepView::Run(text) && after_key(running, outcome) == running
            &&& cached is None && outcome is Some ==> match command_key(outcome->0) {
                Ok(key) => key_step(running, outcome) == KeyStepView::Known(key) && after_key(
                    running,
                    outcome,
                ).cached == Some(key) && after_key(running, outcome).source == running.source,
                Err(error) => key_step(running, outcome) == KeyStepView::Failed(error) && after_key(
                    running,
                    outcome,
                ) == running,
            }
        }),
{
}

/// A request to read has no body, nor has one to delete; a request to post has the JSON text of just
/// the entries that it is given.
pub proof fn law_requests_have_their_method_and_body(
    path: Seq<char>,
    entries: Map<Seq<char>, JsonView>,
)
    ensures
        get(path).method == Method::Get,
        get(path).path == path,
        get(path).body is None,
        post(path, entries).method == Method::Post,
        post(path, entries).path == path,
        post(path, entries).body == Some(json_text(JsonView::Object(entries))),
        delete(path).method == Method::Delete,
        delete(path).path == path,
        delete(path).body is None,
{
}

/// Setting a client up: a key that is set to something is used as it is; else a command that is set
/// to something is kept as it is by a lazy client and run at once for another; else there is no
/// client.
pub proof fn law_environment_makes_the_client(
    lazy: bool,
    api_key: Option<String>,
    command: Option<String>,
)
    ensures
        ({
            let step = env_step(lazy, EnvEvent::Variables { api_key, command });
            let has_key = api_key is Some && api_key->0@.len() > 0;
            let has_command = command is Some && command->0@.len() > 0;
            &&& has_key ==> (step matches EnvStepView::Finish(Ok(client)) && client.source
                == KeySourceView::Direct(api_key->0@) && client.cached is None)
            &&& !has_key && has_command && lazy ==> (step matches EnvStepView::Finish(Ok(client))
                && client.source == KeySourceView::Command(command->0@) && client.cached is None)
            &&& !has_key && has_command && !lazy ==> step == EnvStepView::RunCommand(command->0@)
            &&& !has_key && !has_command ==> step == EnvStepView::Finish(
                Err::<ClientView, LambdaErrorView>(LambdaErrorView::ApiKeyNotSet),
            )
        }),
{
}

/// A client whose command is run at once has the key that the command comes to; without a key there
/// is no client, for the same reason.
pub proof fn law_command_makes_the_client(lazy: bool, outcome: CommandOutcome)
    ensures
        ({
            let step = env_step(lazy, EnvEvent::KeyCommand(outcome));
            match command_key(outcome) {
                Ok(key) => step matches EnvStepView::Finish(Ok(client)) && client.source
                    == KeySourceView::Direct(key) && client.cached is None,
                Err(error) => step == EnvStepView::Finish(Err::<ClientView, LambdaErrorView>(error)),
            }
        }),
{
}

/// A new client has run nothing yet.
pub proof fn law_new_client_keeps_no_key(source: KeySourceView)
    ensures
        fresh(source).source == source,
        fresh(source).cached is None,
{
}

/// What a client says is seen with all that it holds.
pub proof fn law_step_views_lose_nothing<R, E>(
    text: String,
    request: ApiRequest,
    action: Action,
    error: LambdaError,
    failure: ClientError<E>,
    answer: R,
    client: LambdaClient,
    launch: LaunchResult,
)
    ensures
        Action::RunCommand(text)@ == ActionView::RunCommand(text@),
        Action::Send(request)@ == ActionView::Send(request@),
        step_view(Step::<R, E>::Perform(action), |seen: R| seen) == StepView::<R, E>::Perform(
            action@,
        ),
        step_view(Step::<R, E>::Finish(Ok(answer)), |seen: R| seen) == StepView::<R, E>::Finish(
            Ok(answer),
        ),
        step_view(Step::<R, E>::Finish(Err(failure)), |seen: R| seen) == StepView::<R, E>::Finish(
            Err(failure@),
        ),
        KeyStep::Known(text)@ == KeyStepView::Known(text@),
        KeyStep::Run(text)@ == KeyStepView::Run(text@),
        KeyStep::Failed(error)@ == KeyStepView::Failed(error@),
        EnvStep::RunCommand(text)@ == EnvStepView::RunCommand(text@),
        EnvStep::Finish(Ok(client))@ == EnvStepView::Finish(
            Ok::<ClientView, LambdaErrorView>(client@),
        ),
        EnvStep::Finish(Err(error))@ == EnvStepView::Finish(
            Err::<ClientView, LambdaErrorView>(error@),
        ),
        LaunchStep::<E>::Lookup(action)@ == LaunchStepView::<E>::Lookup(action@),
        LaunchStep::<E>::Submit(text, action)@ == LaunchStepView::<E>::Submit(text@, action@),
        LaunchStep::<E>::Finish(Ok(launch))@ == LaunchStepView::<E>::Finish(Ok(launch@)),
        LaunchStep::<E>::Finish(Err(failure))@ == LaunchStepView::<E>::Finish(Err(failure@)),
        launch@.instance_id == launch.instance_id@,
        launch@.region == launch.region@,
        opt_string(Some(text)) == Some(text@),
        opt_string(None) is None,
{
}

/// The failures of every call have words of their own; those of validating the key and of getting
/// one instance show the status.
pub proof fn law_failures_have_their_words()
    ensures
        validate_api_key_words().sending == "Failed to connect to Lambda API"@,
        validate_api_key_words().refusal == "API key validation failed"@,
        validate_api_key_words().shows_status,
        list_instance_types_words().sending == "Failed to fetch instance types"@,
        list_instance_types_words().refusal == "Failed to list instances"@,
        !list_instance_types_words().shows_status,
        list_images_words().sending == "Failed to fetch images"@,
        list_images_words().refusal == "Failed to list images"@,
        !list_images_words().shows_status,
        get_instance_type_words().sending == "Failed to fetch instance types"@,
        get_instance_type_words().refusal == "Failed to get instance types"@,
        !get_instance_type_words().shows_status,
        launch_words().sending == "Failed to send launch request"@,
        launch_words().refusal == "Failed to launch instance"@,
        !launch_words().shows_status,
        terminate_words().sending == "Failed to send terminate request"@,
        terminate_words().refusal == "Failed to terminate instance"@,
        !terminate_words().shows_status,
        list_running_instances_words().sending == "Failed to fetch running instances"@,
        list_running_instances_words().refusal == "Failed to list running instances"@,
        !list_running_instances_words().shows_status,
        get_instance_words().sending == "Failed to fetch instance details"@,
        get_instance_words().refusal == "Failed to get instance details"@,
        get_instance_words().shows_status,
        list_filesystems_words().sending == "Failed to fetch filesystems"@,
        list_filesystems_words().refusal == "Failed to list filesystems"@,
        !list_filesystems_words().shows_status,
        create_filesystem_words().sending == "Failed to create filesystem"@,
        create_filesystem_words().refusal == "Failed to create filesystem"@,
        !create_filesystem_words().shows_status,
        delete_filesystem_words().sending == "Failed to delete filesystem"@,
        delete_filesystem_words().refusal == "Failed to delete filesystem"@,
        !delete_filesystem_words().shows_status,
{
}

/// An answer to the lookup of an instance type is searched for just that type: what the service says
/// of it is found, whatever it is, and a type that the service does not name is not.
pub proof fn law_type_is_found_in_the_answer<E>(
    end: Exchange<InstanceTypes, E>,
    gpu: Seq<char>,
)
    ensures
        end matches Exchange::Answered(_, response) ==> match found_type(end, gpu) {
            Ok(Some(data)) => response.data@.dom().contains(gpu) && data == response.data@[gpu],
            Ok(None) => !response.data@.dom().contains(gpu),
            Err(_) => false,
        },
        !(end is Answered) ==> found_type(end, gpu) == Err::<
            Option<InstanceTypeResponse>,
            ClientErrorView<E>,
        >(
            settled(end, get_instance_type_words(), "Failed to parse instance types"@)->Err_0,
        ),
{
}

/// The check of availability yields the names of the regions that the answer lists for the type, one
/// by one: none is left out, none is added, and their order stays. Of a type that the answer does
/// not have, it says so.
pub proof fn law_availability_region_by_region<E>(
    types: Map<Seq<char>, InstanceTypeResponse>,
    gpu: Seq<char>,
)
    ensures
        ({
            let result = available_regions::<E>(entry_of(types, gpu), gpu);
            let regions = types[gpu].regions_with_capacity_available@;
            &&& types.dom().contains(gpu) ==> result is Ok && result->Ok_0.len() == regions.len() && (
            forall|k: int|
                0 <= k < regions.len() ==> #[trigger] result->Ok_0[k] == regions[k].name@)
            &&& !types.dom().contains(gpu) ==> result == Err::<
                Seq<Seq<char>>,
                ClientErrorView<E>,
            >(ClientErrorView::Lambda(LambdaErrorView::InstanceTypeNotFound(gpu)))
        }),
{
    law_region_names_one_by_one(types[gpu].regions_with_capacity_available@);
}

/// A region that is asked for is used whenever the service lists it for the type, wherever in its
/// list it stands.
pub proof fn law_listed_region_is_used<E>(data: InstanceTypeResponse, gpu: Seq<char>, k: int)
    requires
        0 <= k < data.regions_with_capacity_available@.len(),
    ensures
        chosen_region::<E>(
            Some(data),
            gpu,
            Some(data.regions_with_capacity_available@[k].name@),
        ) == Ok::<Seq<char>, ClientErrorView<E>>(data.regions_with_capacity_available@[k].name@),
{
    let names = region_texts(data.regions_with_capacity_available@);
    law_region_names_one_by_one(data.regions_with_capacity_available@);
    assert(names[k] == data.regions_with_capacity_available@[k].name@);
    assert(names.contains(names[k]));
}

/// A region that is asked for and that the service does not list for the type is refused, with the
/// names of all regions that it lists.
pub proof fn law_unlisted_region_is_refused<E>(
    data: InstanceTypeResponse,
    gpu: Seq<char>,
    region: Seq<char>,
    names: Seq<Seq<char>>,
)
    requires
        names.len() == data.regions_with_capacity_available@.len(),
        forall|k: int|
            0 <= k < names.len() ==> #[trigger] names[k]
                == data.regions_with_capacity_available@[k].name@ && names[k] != region,
    ensures
        chosen_region::<E>(Some(data), gpu, Some(region)) == Err::<Seq<char>, ClientErrorView<E>>(
            ClientErrorView::Message(
                "Region '"@ + region + "' is not available for instance type '"@ + gpu
                    + "'. Available regions: "@ + joined(names, ", "@),
            ),
        ),
{
    let all = region_texts(data.regions_with_capacity_available@);
    law_region_names_one_by_one(data.regions_with_capacity_available@);
    assert(all =~= names);
}

/// With no region asked for, the first that the service lists is used; if it lists none, or does not
/// have the type, there is none.
pub proof fn law_first_region_is_used<E>(
    data: InstanceTypeResponse,
    gpu: Seq<char>,
    region: Option<Seq<char>>,
)
    ensures
        data.regions_with_capacity_available@.len() > 0 ==> chosen_region::<E>(
            Some(data),
            gpu,
            None,
        ) == Ok::<Seq<char>, ClientErrorView<E>>(data.regions_with_capacity_available@[0].name@),
        data.regions_with_capacity_available@.len() == 0 ==> chosen_region::<E>(
            Some(data),
            gpu,
            None,
        ) == Err::<Seq<char>, ClientErrorView<E>>(
            ClientErrorView::Lambda(LambdaErrorView::NoRegionsAvailable(gpu)),
        ),
        chosen_region::<E>(None, gpu, region) == Err::<Seq<char>, ClientErrorView<E>>(
            ClientErrorView::Lambda(LambdaErrorView::InstanceTypeNotFound(gpu)),
        ),
{
    law_region_names_one_by_one(data.regions_with_capacity_available@);
}

/// A launch comes to the first instance that the service names, as it names it, in the region that
/// it was submitted for; if the service names none, it fails.
pub proof fn law_launch_comes_to_the_first_instance<E>(
    end: Exchange<LaunchResponse, E>,
    region: Seq<char>,
)
    ensures
        end matches Exchange::Answered(_, response) ==> (if response.data.instance_ids@.len() > 0 {
            launched(end, region) matches Ok(launch) && launch.instance_id
                == response.data.instance_ids@[0]@ && launch.region == region
        } else {
            launched(end, region) == Err::<LaunchView, ClientErrorView<E>>(
                ClientErrorView::Lambda(LambdaErrorView::NoInstanceIds),
            )
        }),
        !(end is Answered) ==> launched(end, region) == Err::<LaunchView, ClientErrorView<E>>(
            settled(end, launch_words(), "Failed to parse launch response"@)->Err_0,
        ),
{
}

/// A launch looks its type up as any call does. What the lookup fails with, the launch fails with;
/// from the region that the lookup comes to, it goes on to its submission.
pub proof fn law_launch_begins_with_its_lookup<E>(
    client: ClientView,
    order: LaunchOrder,
    region: Option<Seq<char>>,
    event: Event<Exchange<InstanceTypes, E>>,
)
    ensures
        ({
            let step = launch_step(client, order, region, LaunchEvent::Lookup(event));
            let request = Request { method: Method::Get, path: "/instance-types"@, body: None };
            match call_progress(client, event, request) {
                ProgressView::Next(action) => step == LaunchStepView::<E>::Lookup(action),
                ProgressView::Failed(error) => step == LaunchStepView::<E>::Finish(
                    Err(ClientErrorView::Lambda(error)),
                ),
                ProgressView::Ended(end) => match found_type(end, order.gpu) {
                    Err(error) => step == LaunchStepView::<E>::Finish(Err(error)),
                    Ok(found) => match chosen_region::<E>(found, order.gpu, region) {
                        Err(error) => step == LaunchStepView::<E>::Finish(Err(error)),
                        Ok(name) => step is Submit && step->Submit_0 == name,
                    },
                },
            }
        }),
        after_launch_event(client, LaunchEvent::Lookup(event)) == after_event(client, event),
{
}

/// A launch is submitted as any call is made: by a post to its path, with the region that it was
/// begun for. It ends with what the answer comes to in that region.
pub proof fn law_launch_goes_on_with_its_submission<E>(
    client: ClientView,
    order: LaunchOrder,
    region: Option<Seq<char>>,
    name: String,
    event: Event<Exchange<LaunchResponse, E>>,
)
    ensures
        ({
            let step = launch_step(client, order, region, LaunchEvent::Submit(name, event));
            let request = Request {
                method: Method::Post,
                path: "/instance-operations/launch"@,
                body: Some(json_text(JsonView::Object(launch_entries(order, name@)))),
            };
            match call_progress(client, event, request) {
                ProgressView::Next(action) => step == LaunchStepView::<E>::Submit(name@, action),
                ProgressView::Failed(error) => step == LaunchStepView::<E>::Finish(
                    Err(ClientErrorView::Lambda(error)),
                ),
                ProgressView::Ended(end) => step == LaunchStepView::<E>::Finish(
                    launched(end, name@),
                ),
            }
        }),
        after_launch_event(client, LaunchEvent::Submit(name, event)) == after_event(client, event),
{
}

/// The launch request asks for what the arguments of the launch ask for, each on its own: the type,
/// the SSH key, the name and the filesystem where they are given, the family that the image resolves
/// to, and the region for which it is submitted.
pub proof fn law_launch_request_carries_every_argument<E>(
    client: ClientView,
    gpu: &str,
    ssh_key: &str,
    name: Option<&str>,
    region: Option<&str>,
    filesystem: Option<&str>,
    image: Option<&str>,
    event: LaunchEvent<E>,
    region_name: &str,
    sent: RequestView,
)
    requires
        launch_step(
            client,
            launch_order(gpu, ssh_key, name, filesystem, image),
            opt_text(region),
            event,
        ) == LaunchStepView::<E>::Submit(region_name@, ActionView::Send(sent)),
    ensures
        sent.method == Method::Post,
        sent.url == "https://cloud.lambdalabs.com/api/v1/instance-operations/launch"@,
        exists|entries: Map<Seq<char>, JsonView>|
            #![trigger json_text(JsonView::Object(entries))]
            {
                &&& sent.body == Some(json_text(JsonView::Object(entries)))
                &&& entries["region_name"@] == JsonView::Text(region_name@)
                &&& entries["instance_type_name"@] == JsonView::Text(gpu@)
                &&& entries["ssh_key_names"@] == JsonView::Array(seq![JsonView::Text(ssh_key@)])
                &&& entries["quantity"@] == JsonView::Integer(1)
                &&& entries["image"@] is Object
                &&& entries["image"@]->Object_0["family"@] is Text
                &&& ({
                    let family = entries["image"@]->Object_0["family"@]->Text_0;
                    &&& family.len() > 0
                    &&& !is_white_space(family[0])
                    &&& !is_white_space(family[family.len() - 1])
                    &&& image is None || is_blank(image->0@) ==> family == "lambda-stack-24-04"@
                    &&& image is Some && !is_blank(image->0@) ==> exists|
                        front: Seq<char>,
                        back: Seq<char>,
                    |
                        #![trigger is_blank(front), is_blank(back)]
                        is_blank(front) && is_blank(back) && image->0@ == front + family + back
                })
                &&& entries.dom().contains("name"@) <==> name is Some
                &&& name is Some ==> entries["name"@] == JsonView::Text(name->0@)
                &&& entries.dom().contains("file_system_names"@) <==> filesystem is Some
                &&& filesystem is Some ==> entries["file_system_names"@] == JsonView::Array(
                    seq![JsonView::Text(filesystem->0@)],
                )
            },
{
    let order = launch_order(gpu, ssh_key, name, filesystem, image);
    let entries = launch_entries(order, region_name@);
    law_launch_body_carries_every_argument(gpu, ssh_key, name, region_name, filesystem, image);
    assert(sent.body == Some(json_text(JsonView::Object(entries))));
    let keys = entries["ssh_key_names"@]->Array_0;
    assert(keys =~= seq![JsonView::Text(ssh_key@)]);
    if filesystem is Some {
        let filesystems = entries["file_system_names"@]->Array_0;
        assert(filesystems =~= seq![JsonView::Text(filesystem->0@)]);
    }
    reveal_strlit("https://cloud.lambdalabs.com/api/v1");
    reveal_strlit("/instance-operations/launch");
    reveal_strlit("https://cloud.lambdalabs.com/api/v1/instance-operations/launch");
    assert("https://cloud.lambdalabs.com/api/v1/instance-operations/launch"@
        =~= "https://cloud.lambdalabs.com/api/v1"@ + "/instance-operations/launch"@);
}

} // verus!

//! What holds of every client, over all its calls.

use vstd::prelude::*;

use crate::catalog::{entry_of, listed, region_texts, row_names, InstanceTypes, TypeRow};
use crate::client::{
    after_event, after_key, after_launch_event, available_regions, call_progress, call_step,
    chosen_region, env_step, found_type, fresh, get_instance_type_words, is_given, key_step,
    launch_goes_by_status, launch_step, launch_words, opt_string, ActionView, ClientView, EnvEvent,
    EnvStepView, Event, LaunchEvent, LaunchStepView, LaunchView, ProgressView, Request, StepView,
};
use crate::error::{ClientErrorView, LambdaErrorView};
use crate::http::{
    acknowledged, is_success_code, refused, settled, Exchange, Receipt, WordingView, API_BASE_URL,
};
use crate::json::{json_text, JsonView};
use crate::key::{command_key, CommandOutcome, KeySourceView};
use crate::model::{InstanceTypeResponse, LaunchResponse};
use crate::payload::{launch_entries, law_launch_body_says_what_was_ordered, LaunchOrder};

verus! {

/// Once a client knows its key, it keeps it: whatever comes later, no command is run for it and
/// nothing about the client changes.
pub proof fn law_known_key_is_kept(
    client: ClientView,
    outcome: Option<CommandOutcome>,
    later: Option<CommandOutcome>,
)
    requires
        key_step(client, outcome) is Known,
    ensures
        after_key(client, outcome).known_key() == Some(key_step(client, outcome)->Known_0),
        key_step(after_key(client, outcome), later) == key_step(client, outcome),
        after_key(after_key(client, outcome), later) == after_key(client, outcome),
{
}

/// The client after it was asked for its key once for each of `outcomes`.
pub open spec fn after_keys(
    client: ClientView,
    outcomes: Seq<Option<CommandOutcome>>,
) -> ClientView
    decreases outcomes.len(),
{
    if outcomes.len() == 0 {
        client
    } else {
        after_key(after_keys(client, outcomes.drop_last()), outcomes.last())
    }
}

/// A client that knows its key stays as it is for good, however often it is asked and whatever
/// commands come to.
pub proof fn law_known_key_is_kept_for_good(
    client: ClientView,
    outcomes: Seq<Option<CommandOutcome>>,
)
    requires
        client.known_key() is Some,
    ensures
        after_keys(client, outcomes) == client,
    decreases outcomes.len(),
{
    if outcomes.len() > 0 {
        law_known_key_is_kept_for_good(client, outcomes.drop_last());
    }
}

/// A client keeps where its key comes from; one that was given the key itself keeps no other.
pub proof fn law_source_never_changes(
    source: KeySourceView,
    outcomes: Seq<Option<CommandOutcome>>,
)
    ensures
        after_keys(fresh(source), outcomes).source == source,
        source is Direct ==> after_keys(fresh(source), outcomes).cached is None,
    decreases outcomes.len(),
{
    if outcomes.len() > 0 {
        law_source_never_changes(source, outcomes.drop_last());
    }
}

/// A command that yields no key leaves the client as it was, so that the command is run again when
/// the key is needed again.
pub proof fn law_failed_command_is_forgotten(client: ClientView, outcome: CommandOutcome)
    requires
        key_step(client, Some(outcome)) is Failed,
    ensures
        command_key(outcome) == Err::<Seq<char>, LambdaErrorView>(
            key_step(client, Some(outcome))->Failed_0,
        ),
        after_key(client, Some(outcome)) == client,
        key_step(client, None) is Run,
{
}

/// A command is run only at the start of a call, only the one that the client was given, and only
/// while the client knows no key.
pub proof fn law_command_runs_only_while_no_key_is_known<X>(
    client: ClientView,
    event: Event<X>,
    request: Request,
    command: Seq<char>,
)
    ensures
        call_progress(client, event, request) == ProgressView::<X>::Next(
            ActionView::RunCommand(command),
        ) <==> event is Start && client.known_key() is None && client.source
            == KeySourceView::Command(command),
{
}

/// Every request goes to the service, to the path of the call, and carries the key that the client
/// knows by then.
pub proof fn law_every_request_is_authorized<X>(
    client: ClientView,
    event: Event<X>,
    request: Request,
)
    requires
        call_progress(client, event, request) matches ProgressView::Next(ActionView::Send(_)),
    ensures
        ({
            let sent = call_progress(client, event, request)->Next_0->Send_0;
            let key = after_event(client, event).known_key();
            &&& key is Some
            &&& sent.url == API_BASE_URL@ + request.path
            &&& sent.authorization == "Bearer "@ + key->0
            &&& sent.method == request.method
            &&& sent.body == request.body
        }),
{
}

/// `LAMBDA_API_KEY`, where it is set to something, goes before everything else.
pub proof fn law_given_key_goes_first(
    lazy: bool,
    api_key: Option<String>,
    command: Option<String>,
)
    requires
        is_given(opt_string(api_key)),
    ensures
        env_step(lazy, EnvEvent::Variables { api_key, command }) == EnvStepView::Finish(
            Ok::<ClientView, LambdaErrorView>(fresh(KeySourceView::Direct(api_key->0@))),
        ),
{
}

/// Setting a client up runs a command exactly when it is not lazy and there is a command and no
/// key; it fails at once exactly when there is neither, where an empty variable counts as unset.
pub proof fn law_setting_up_runs_a_command_only_when_eager(
    lazy: bool,
    api_key: Option<String>,
    command: Option<String>,
)
    ensures
        env_step(lazy, EnvEvent::Variables { api_key, command }) is RunCommand <==> !lazy
            && !is_given(opt_string(api_key)) && is_given(opt_string(command)),
        env_step(lazy, EnvEvent::Variables { api_key, command }) == EnvStepView::Finish(
            Err::<ClientView, LambdaErrorView>(LambdaErrorView::ApiKeyNotSet),
        ) <==> !is_given(opt_string(api_key)) && !is_given(opt_string(command)),
{
}

/// A lazy client, once its command has printed a key, does for every call what the client does
/// that was set up with the command run at once.
pub proof fn law_lazy_and_eager_clients_agree<X>(
    command: Seq<char>,
    outcome: CommandOutcome,
    event: Event<X>,
    request: Request,
)
    requires
        command_key(outcome) is Ok,
    ensures
        env_step(false, EnvEvent::KeyCommand(outcome)) == EnvStepView::Finish(
            Ok::<ClientView, LambdaErrorView>(
                fresh(KeySourceView::Direct(command_key(outcome)->Ok_0)),
            ),
        ),
        call_progress(
            after_key(fresh(KeySourceView::Command(command)), Some(outcome)),
            event,
            request,
        ) == call_progress(
            fresh(KeySourceView::Direct(command_key(outcome)->Ok_0)),
            event,
            request,
        ),
{
}

/// A region can be asked for exactly when it is among those that the check of availability lists;
/// with none asked for, a launch goes to the first of them, if there is one.
pub proof fn law_launch_agrees_with_availability<E>(
    found: Option<InstanceTypeResponse>,
    gpu: Seq<char>,
    region: Seq<char>,
)
    ensures
        available_regions::<E>(found, gpu) is Err ==> chosen_region::<E>(found, gpu, None) is Err
            && chosen_region::<E>(found, gpu, Some(region)) is Err,
        available_regions::<E>(found, gpu) matches Ok(names) ==> {
            &&& chosen_region::<E>(found, gpu, Some(region)) is Ok <==> names.contains(region)
            &&& chosen_region::<E>(found, gpu, None) is Ok <==> names.len() > 0
            &&& names.len() > 0 ==> chosen_region::<E>(found, gpu, None) == Ok::<
                Seq<char>,
                ClientErrorView<E>,
            >(names[0])
        },
{
}

/// The region of a launch has capacity; one that was asked for is the one that is used.
pub proof fn law_chosen_region_has_capacity<E>(
    found: Option<InstanceTypeResponse>,
    gpu: Seq<char>,
    region: Option<Seq<char>>,
)
    requires
        chosen_region::<E>(found, gpu, region) is Ok,
    ensures
        found is Some,
        region_texts(found->0.regions_with_capacity_available@).contains(
            chosen_region::<E>(found, gpu, region)->Ok_0,
        ),
        region is Some ==> chosen_region::<E>(found, gpu, region)->Ok_0 == region->0,
{
    let names = region_texts(found->0.regions_with_capacity_available@);
    if region is None {
        assert(names.contains(names[0]));
    }
}

/// A launch is submitted only after the lookup has found capacity, and its body names the region
/// that the lookup came to.
pub proof fn law_launch_is_submitted_for_the_chosen_region<E>(
    client: ClientView,
    order: LaunchOrder,
    region: Option<Seq<char>>,
    event: Event<Exchange<InstanceTypes, E>>,
)
    requires
        launch_step(client, order, region, LaunchEvent::Lookup(event)) is Submit,
    ensures
        event is Exchanged,
        found_type(event->Exchanged_0, order.gpu) is Ok,
        ({
            let name = launch_step(client, order, region, LaunchEvent::Lookup(event))->Submit_0;
            let action = launch_step(client, order, region, LaunchEvent::Lookup(event))->Submit_1;
            let found = found_type(event->Exchanged_0, order.gpu)->Ok_0;
            &&& chosen_region::<E>(found, order.gpu, region) == Ok::<Seq<char>, ClientErrorView<E>>(
                name,
            )
            &&& action matches ActionView::Send(sent) ==> sent.body == Some(
                json_text(JsonView::Object(launch_entries(order, name))),
            )
            &&& launch_entries(order, name)["region_name"@] == JsonView::Text(name)
        }),
{
    let name = launch_step(client, order, region, LaunchEvent::Lookup(event))->Submit_0;
    law_launch_body_says_what_was_ordered(order, name);
}

/// A launch that succeeds reports the region that it was submitted for, and the first instance
/// that the service names.
pub proof fn law_launch_reports_its_region<E>(
    client: ClientView,
    order: LaunchOrder,
    region: Option<Seq<char>>,
    name: String,
    event: Event<Exchange<LaunchResponse, E>>,
)
    requires
        launch_step(client, order, region, LaunchEvent::Submit(name, event)) matches
            LaunchStepView::Finish(Ok(_)),
    ensures
        event matches Event::Exchanged(Exchange::Answered(_, response)) && {
            &&& response.data.instance_ids@.len() > 0
            &&& launch_step(client, order, region, LaunchEvent::Submit(name, event))
                == LaunchStepView::Finish(
                Ok::<LaunchView, ClientErrorView<E>>(
                    LaunchView {
                        instance_id: response.data.instance_ids@[0]@,
                        region: name@,
                    },
                ),
            )
        },
{
}

/// A call that reads an answer succeeds only on a status from 200 to 299; any other status gives
/// the refusal.
pub proof fn law_reading_call_goes_by_status<T, E>(
    client: ClientView,
    event: Event<Exchange<T, E>>,
    request: Request,
    words: WordingView,
    reading: Seq<char>,
)
    requires
        event matches Event::Exchanged(end) ==> end.goes_by_status(),
    ensures
        ({
            let step = call_step(
                client,
                event,
                request,
                |end: Exchange<T, E>| settled(end, words, reading),
            );
            &&& step matches StepView::Finish(Ok(_)) ==> (event matches Event::Exchanged(end)
                && end.status() is Some && is_success_code(end.status()->0))
            &&& event matches Event::Exchanged(end) ==> end.status() is Some && !is_success_code(
                end.status()->0,
            ) ==> step == StepView::<T, E>::Finish(
                Err(refused(words, end.status()->0, end.error())),
            )
        }),
{
}

/// A call that has no answer but its status succeeds exactly when its request comes back with a
/// status from 200 to 299; any other status gives the refusal.
pub proof fn law_plain_call_goes_by_status<E>(
    client: ClientView,
    event: Event<Receipt<E>>,
    request: Request,
    words: WordingView,
)
    requires
        event matches Event::Exchanged(end) ==> end.goes_by_status(),
    ensures
        ({
            let step = call_step(
                client,
                event,
                request,
                |end: Receipt<E>| acknowledged(end, words),
            );
            &&& step == StepView::<(), E>::Finish(Ok(())) <==> (event matches Event::Exchanged(end)
                && end.status() is Some && is_success_code(end.status()->0))
            &&& event matches Event::Exchanged(end) ==> end.status() is Some && !is_success_code(
                end.status()->0,
            ) ==> step == StepView::<(), E>::Finish(
                Err(refused(words, end.status()->0, end.error())),
            )
        }),
{
}

/// A launch goes on from its lookup, and succeeds, only on a status from 200 to 299; any other
/// status of either request gives the refusal of that request.
pub proof fn law_launch_goes_by_status<E>(
    client: ClientView,
    order: LaunchOrder,
    region: Option<Seq<char>>,
    event: LaunchEvent<E>,
)
    requires
        launch_goes_by_status(event),
    ensures
        ({
            let step = launch_step(client, order, region, event);
            &&& event matches LaunchEvent::Lookup(inner) ==> {
                &&& !(step matches LaunchStepView::Finish(Ok(_)))
                &&& step is Submit ==> (inner matches Event::Exchanged(end) && end.status() is Some
                    && is_success_code(end.status()->0))
                &&& inner matches Event::Exchanged(end) ==> end.status() is Some
                    && !is_success_code(end.status()->0) ==> step == LaunchStepView::<E>::Finish(
                    Err(refused(get_instance_type_words(), end.status()->0, end.error())),
                )
            }
            &&& event matches LaunchEvent::Submit(_, inner) ==> {
                &&& step matches LaunchStepView::Finish(Ok(_)) ==> (inner matches Event::Exchanged(
                    end,
                ) && end.status() is Some && is_success_code(end.status()->0))
                &&& inner matches Event::Exchanged(end) ==> end.status() is Some
                    && !is_success_code(end.status()->0) ==> step == LaunchStepView::<E>::Finish(
                    Err(refused(launch_words(), end.status()->0, end.error())),
                )
            }
        }),
{
}

/// The listing and the check of availability agree: the regions in the row of an instance type are
/// those that the check lists for it, and a type without a row is one that the check does not find.
pub proof fn law_listing_agrees_with_availability<E>(
    types: Map<Seq<char>, InstanceTypeResponse>,
    rows: Seq<TypeRow>,
    gpu: Seq<char>,
)
    requires
        listed(types, rows),
    ensures
        forall|k: int|
            0 <= k < rows.len() && (#[trigger] rows[k]).name == gpu ==> available_regions::<E>(
                entry_of(types, gpu),
                gpu,
            ) == Ok::<Seq<Seq<char>>, ClientErrorView<E>>(rows[k].regions_available),
        !row_names(rows).contains(gpu) ==> available_regions::<E>(entry_of(types, gpu), gpu)
            == Err::<Seq<Seq<char>>, ClientErrorView<E>>(
            ClientErrorView::Lambda(LambdaErrorView::InstanceTypeNotFound(gpu)),
        ),
{
    let names = row_names(rows);
    assert(names.to_set().contains(gpu) == names.contains(gpu));
    assert forall|k: int| 0 <= k < rows.len() && (#[trigger] rows[k]).name == gpu implies
        available_regions::<E>(entry_of(types, gpu), gpu) == Ok::<
        Seq<Seq<char>>,
        ClientErrorView<E>,
    >(rows[k].regions_available) by {
        assert(names[k] == gpu);
    }
}

/// A launch runs a command at most for its lookup: by the time it is submitted the key is known,
/// and it is the key of the lookup.
pub proof fn law_launch_asks_for_the_key_once<E>(
    client: ClientView,
    order: LaunchOrder,
    region: Option<Seq<char>>,
    event: LaunchEvent<E>,
)
    requires
        client.known_key() is Some,
    ensures
        after_launch_event(client, event) == client,
        !(launch_step(client, order, region, event) matches LaunchStepView::Lookup(
            ActionView::RunCommand(_),
        )),
        !(launch_step(client, order, region, event) matches LaunchStepView::Submit(
            _,
            ActionView::RunCommand(_),
        )),
{
}

} // verus!

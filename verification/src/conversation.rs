//! Whole calls, from their first event to their last.
//!
//! A call is seen as the list of its events together with the states that the client is in when
//! they come. Nothing is asked of these states: other calls may go on in between.

use vstd::prelude::*;

use crate::client::{
    after_launch_event, call_progress, chosen_region, found_type, launch_step, launched, ActionView,
    ClientView, Event, LaunchEvent, LaunchStepView, LaunchView, ProgressView, Request,
};
use crate::error::ClientErrorView;
use crate::http::{Method, API_BASE_URL};
use crate::json::{json_text, JsonView};
use crate::key::CommandOutcome;
use crate::laws::{after_keys, law_known_key_is_kept_for_good};
use crate::payload::{launch_entries, LaunchOrder};

verus! {

/// The event tells what became of the action.
pub open spec fn tells_of<X>(action: ActionView, event: Event<X>) -> bool {
    match action {
        ActionView::RunCommand(_) => event is KeyCommand,
        ActionView::Send(_) => event is Exchanged,
    }
}

/// How far a call is after event `i`.
pub open spec fn progress_at<X>(
    clients: Seq<ClientView>,
    request: Request,
    events: Seq<Event<X>>,
    i: int,
) -> ProgressView<X> {
    call_progress(clients[i], events[i], request)
}

/// Event `i` tells what became of the step before it.
pub open spec fn call_goes_on<X>(
    clients: Seq<ClientView>,
    request: Request,
    events: Seq<Event<X>>,
    i: int,
) -> bool {
    progress_at(clients, request, events, i - 1) matches ProgressView::Next(action) && tells_of(
        action,
        events[i],
    )
}

/// These are the events of a call with one request, from its start, and the states of the client
/// when they come.
pub open spec fn is_call<X>(
    clients: Seq<ClientView>,
    request: Request,
    events: Seq<Event<X>>,
) -> bool {
    &&& events.len() > 0
    &&& clients.len() == events.len()
    &&& events[0] is Start
    &&& forall|i: int|
        0 < i < events.len() ==> #[trigger] call_goes_on(clients, request, events, i)
}

/// After event `i` the request is sent.
pub open spec fn sends_at<X>(
    clients: Seq<ClientView>,
    request: Request,
    events: Seq<Event<X>>,
    i: int,
) -> bool {
    progress_at(clients, request, events, i) matches ProgressView::Next(ActionView::Send(_))
}

/// A call sends its request at most once, and is over after three events at the most.
pub proof fn law_call_sends_one_request<X>(
    clients: Seq<ClientView>,
    request: Request,
    events: Seq<Event<X>>,
)
    requires
        is_call(clients, request, events),
    ensures
        events.len() <= 3,
        events.len() == 3 ==> progress_at(clients, request, events, 2) is Ended,
        forall|i: int, j: int|
            0 <= i < events.len() && 0 <= j < events.len() && #[trigger] sends_at(
                clients,
                request,
                events,
                i,
            ) && #[trigger] sends_at(clients, request, events, j) ==> i == j,
{
    if events.len() > 1 {
        assert(call_goes_on(clients, request, events, 1));
    }
    if events.len() > 2 {
        assert(call_goes_on(clients, request, events, 2));
    }
    if events.len() > 3 {
        assert(call_goes_on(clients, request, events, 3));
    }
}

/// The step after event `i` of a launch.
pub open spec fn launch_step_at<E>(
    clients: Seq<ClientView>,
    order: LaunchOrder,
    region: Option<Seq<char>>,
    events: Seq<LaunchEvent<E>>,
    i: int,
) -> LaunchStepView<E> {
    launch_step(clients[i], order, region, events[i])
}

/// The event tells what became of the step. A submission stays with its region.
pub open spec fn launch_tells_of<E>(step: LaunchStepView<E>, event: LaunchEvent<E>) -> bool {
    match (step, event) {
        (LaunchStepView::Lookup(action), LaunchEvent::Lookup(inner)) => tells_of(action, inner),
        (LaunchStepView::Submit(region, action), LaunchEvent::Submit(name, inner)) => name@
            == region && tells_of(action, inner),
        _ => false,
    }
}

/// Event `i` of a launch tells what became of the step before it.
pub open spec fn launch_goes_on<E>(
    clients: Seq<ClientView>,
    order: LaunchOrder,
    region: Option<Seq<char>>,
    events: Seq<LaunchEvent<E>>,
    i: int,
) -> bool {
    launch_tells_of(launch_step_at(clients, order, region, events, i - 1), events[i])
}

/// These are the events of a launch, from its start, and the states of the client when they come.
pub open spec fn is_launch<E>(
    clients: Seq<ClientView>,
    order: LaunchOrder,
    region: Option<Seq<char>>,
    events: Seq<LaunchEvent<E>>,
) -> bool {
    &&& events.len() > 0
    &&& clients.len() == events.len()
    &&& events[0] matches LaunchEvent::Lookup(Event::Start)
    &&& forall|i: int|
        0 < i < events.len() ==> #[trigger] launch_goes_on(clients, order, region, events, i)
}

/// After event `i` the launch request is sent.
pub open spec fn submits_at<E>(
    clients: Seq<ClientView>,
    order: LaunchOrder,
    region: Option<Seq<char>>,
    events: Seq<LaunchEvent<E>>,
    i: int,
) -> bool {
    launch_step_at(clients, order, region, events, i) matches LaunchStepView::Submit(
        _,
        ActionView::Send(_),
    )
}

/// The event is the answer to the lookup, and `name` is the region that it comes to.
pub open spec fn lookup_comes_to<E>(
    order: LaunchOrder,
    region: Option<Seq<char>>,
    event: LaunchEvent<E>,
    name: Seq<char>,
) -> bool {
    event matches LaunchEvent::Lookup(Event::Exchanged(end)) && found_type(end, order.gpu) matches Ok(
        found,
    ) && chosen_region::<E>(found, order.gpu, region) == Ok::<Seq<char>, ClientErrorView<E>>(name)
}

/// How far into a launch an event comes.
spec fn stage<E>(event: LaunchEvent<E>) -> int {
    match event {
        LaunchEvent::Lookup(Event::Start) => 0,
        LaunchEvent::Lookup(Event::KeyCommand(_)) => 1,
        LaunchEvent::Lookup(Event::Exchanged(_)) => 2,
        LaunchEvent::Submit(_, Event::Exchanged(_)) => 4,
        LaunchEvent::Submit(_, _) => 3,
    }
}

/// A launch never goes back.
proof fn lemma_stages_ascend<E>(
    clients: Seq<ClientView>,
    order: LaunchOrder,
    region: Option<Seq<char>>,
    events: Seq<LaunchEvent<E>>,
    i: int,
    j: int,
)
    requires
        is_launch(clients, order, region, events),
        0 <= i <= j < events.len(),
    ensures
        stage(events[i]) + (j - i) <= stage(events[j]),
    decreases j - i,
{
    if i < j {
        lemma_stages_ascend(clients, order, region, events, i, j - 1);
        assert(launch_goes_on(clients, order, region, events, j));
        if j - 1 > 0 {
            assert(launch_goes_on(clients, order, region, events, j - 1));
        }
    }
}

/// Whatever is submitted, is submitted for the region that the lookup came to.
proof fn lemma_submission_has_its_lookup<E>(
    clients: Seq<ClientView>,
    order: LaunchOrder,
    region: Option<Seq<char>>,
    events: Seq<LaunchEvent<E>>,
    i: int,
) -> (k: int)
    requires
        is_launch(clients, order, region, events),
        0 <= i < events.len(),
        launch_step_at(clients, order, region, events, i) is Submit,
    ensures
        0 <= k <= i,
        lookup_comes_to(
            order,
            region,
            events[k],
            launch_step_at(clients, order, region, events, i)->Submit_0,
        ),
{
    if i > 0 {
        assert(launch_goes_on(clients, order, region, events, i));
    }
    if i > 1 {
        assert(launch_goes_on(clients, order, region, events, i - 1));
    }
    if events[i] is Lookup {
        i
    } else {
        i - 1
    }
}

/// A launch sends its launch request at most once, and is over after five events at the most,
/// whatever other calls on the client go on in between.
pub proof fn law_launch_is_submitted_once<E>(
    clients: Seq<ClientView>,
    order: LaunchOrder,
    region: Option<Seq<char>>,
    events: Seq<LaunchEvent<E>>,
)
    requires
        is_launch(clients, order, region, events),
    ensures
        events.len() <= 5,
        events.len() == 5 ==> launch_step_at(clients, order, region, events, 4) is Finish,
        forall|i: int, j: int|
            0 <= i < events.len() && 0 <= j < events.len() && #[trigger] submits_at(
                clients,
                order,
                region,
                events,
                i,
            ) && #[trigger] submits_at(clients, order, region, events, j) ==> i == j,
{
    lemma_stages_ascend(clients, order, region, events, 0, events.len() - 1);
    assert forall|i: int, j: int|
        0 <= i < events.len() && 0 <= j < events.len() && #[trigger] submits_at(
            clients,
            order,
            region,
            events,
            i,
        ) && #[trigger] submits_at(clients, order, region, events, j) implies i == j by {
        if i < j {
            lemma_nothing_after_submission(clients, order, region, events, i, j);
        } else if j < i {
            lemma_nothing_after_submission(clients, order, region, events, j, i);
        }
    }
}

/// Once the launch request is sent, only its answer can come, and that ends the launch.
proof fn lemma_nothing_after_submission<E>(
    clients: Seq<ClientView>,
    order: LaunchOrder,
    region: Option<Seq<char>>,
    events: Seq<LaunchEvent<E>>,
    i: int,
    j: int,
)
    requires
        is_launch(clients, order, region, events),
        0 <= i < j < events.len(),
        submits_at(clients, order, region, events, i),
    ensures
        j == i + 1,
        j == events.len() - 1,
        launch_step_at(clients, order, region, events, j) is Finish,
{
    assert(launch_goes_on(clients, order, region, events, i + 1));
    lemma_stages_ascend(clients, order, region, events, i + 1, events.len() - 1);
}

/// The launch request of a launch comes after the answer to its lookup. It is for the region that
/// this answer comes to, and asks for what was ordered.
pub proof fn law_launch_is_submitted_for_what_the_lookup_found<E>(
    clients: Seq<ClientView>,
    order: LaunchOrder,
    region: Option<Seq<char>>,
    events: Seq<LaunchEvent<E>>,
    i: int,
)
    requires
        is_launch(clients, order, region, events),
        0 <= i < events.len(),
        submits_at(clients, order, region, events, i),
    ensures
        ({
            let step = launch_step_at(clients, order, region, events, i);
            let name = step->Submit_0;
            let sent = step->Submit_1->Send_0;
            &&& exists|k: int|
                0 <= k <= i && lookup_comes_to(order, region, #[trigger] events[k], name)
            &&& sent.method == Method::Post
            &&& sent.url == API_BASE_URL@ + "/instance-operations/launch"@
            &&& sent.body == Some(json_text(JsonView::Object(launch_entries(order, name))))
        }),
{
    let k = lemma_submission_has_its_lookup(clients, order, region, events, i);
    let name = launch_step_at(clients, order, region, events, i)->Submit_0;
    assert(lookup_comes_to(order, region, events[k], name));
}

/// A launch that succeeds has sent its launch request in the step before, and reports the region of
/// that request, to which the lookup came, and the instance of its answer.
pub proof fn law_launch_that_succeeds_was_submitted<E>(
    clients: Seq<ClientView>,
    order: LaunchOrder,
    region: Option<Seq<char>>,
    events: Seq<LaunchEvent<E>>,
    launch: LaunchView,
)
    requires
        is_launch(clients, order, region, events),
        launch_step_at(clients, order, region, events, events.len() - 1) == LaunchStepView::<
            E,
        >::Finish(Ok(launch)),
    ensures
        events.len() > 1,
        submits_at(clients, order, region, events, events.len() - 2),
        launch_step_at(clients, order, region, events, events.len() - 2)->Submit_0
            == launch.region,
        exists|k: int|
            0 <= k < events.len() && lookup_comes_to(
                order,
                region,
                #[trigger] events[k],
                launch.region,
            ),
        events.last() matches LaunchEvent::Submit(_, Event::Exchanged(end)) && launched(
            end,
            launch.region,
        ) == Ok::<LaunchView, ClientErrorView<E>>(launch),
{
    let last = events.len() - 1;
    assert(events.last() == events[last]);
    if last > 0 {
        assert(launch_goes_on(clients, order, region, events, last));
        let k = lemma_submission_has_its_lookup(clients, order, region, events, last - 1);
        assert(lookup_comes_to(order, region, events[k], launch.region));
    }
}

/// After event `i` of a launch a command is run.
pub open spec fn launch_runs_command_at<E>(
    clients: Seq<ClientView>,
    order: LaunchOrder,
    region: Option<Seq<char>>,
    events: Seq<LaunchEvent<E>>,
    i: int,
) -> bool {
    match launch_step_at(clients, order, region, events, i) {
        LaunchStepView::Lookup(ActionView::RunCommand(_)) => true,
        LaunchStepView::Submit(_, ActionView::RunCommand(_)) => true,
        _ => false,
    }
}

/// Between event `i` of a launch and the one before it, the client was at most asked for its key by
/// other calls, any number of times and with any outcomes.
pub open spec fn shared_until<E>(
    clients: Seq<ClientView>,
    events: Seq<LaunchEvent<E>>,
    i: int,
) -> bool {
    exists|outcomes: Seq<Option<CommandOutcome>>|
        clients[i] == #[trigger] after_keys(
            after_launch_event(clients[i - 1], events[i - 1]),
            outcomes,
        )
}

/// A launch runs the command for the API key at most once, as its first step, whatever other calls
/// on the client go on in between.
pub proof fn law_launch_runs_its_command_once<E>(
    clients: Seq<ClientView>,
    order: LaunchOrder,
    region: Option<Seq<char>>,
    events: Seq<LaunchEvent<E>>,
    i: int,
)
    requires
        is_launch(clients, order, region, events),
        forall|k: int| 0 < k < events.len() ==> #[trigger] shared_until(clients, events, k),
        0 <= i < events.len(),
        launch_runs_command_at(clients, order, region, events, i),
    ensures
        i == 0,
{
    if i > 0 {
        lemma_key_is_known_by_then(clients, order, region, events, i);
    }
}

proof fn lemma_key_is_known_by_then<E>(
    clients: Seq<ClientView>,
    order: LaunchOrder,
    region: Option<Seq<char>>,
    events: Seq<LaunchEvent<E>>,
    i: int,
)
    requires
        is_launch(clients, order, region, events),
        forall|k: int| 0 < k < events.len() ==> #[trigger] shared_until(clients, events, k),
        0 < i < events.len(),
    ensures
        !launch_runs_command_at(clients, order, region, events, i),
        launch_step_at(clients, order, region, events, i) is Finish || after_launch_event(
            clients[i],
            events[i],
        ).known_key() is Some,
    decreases i,
{
    assert(launch_goes_on(clients, order, region, events, i));
    assert(shared_until(clients, events, i));
    let before = after_launch_event(clients[i - 1], events[i - 1]);
    let outcomes = choose|outcomes: Seq<Option<CommandOutcome>>|
        clients[i] == #[trigger] after_keys(before, outcomes);
    if i > 1 {
        lemma_key_is_known_by_then(clients, order, region, events, i - 1);
    }
    if before.known_key() is Some {
        law_known_key_is_kept_for_good(before, outcomes);
    }
}

} // verus!

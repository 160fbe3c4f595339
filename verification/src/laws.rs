//! What holds of extraction, of the requests that are built, and of the
//! course of a call, for all inputs.

use vstd::prelude::*;
use crate::executor::{
    decode_failure, embedded_record, fields_of, is_success_status, next, outcome_of, rejected,
    trace_of, ActionView, EventView, OperationView, StateView,
};
use crate::extract::{
    all_resolve, coerce, extraction, first_failure, first_failure_is_unique, lookup, resolve,
    resolved_fields, supplied, ExtractErrorView,
};
use crate::outcome::{
    extraction_detail, ErrorCategory, ErrorDetailView, OutcomeView, ReplyView, ShapeView,
};
use crate::presets::{http_fields, node_fields};
use crate::request::{connection_of, is_option, post_of, HttpRequestView, Method, PayloadView};
use crate::schema::{schema_wf, FieldSpecView, FieldType, FieldView};
use crate::value::DynView;

verus! {

/// Whether no field before field `i` fails.
pub open spec fn none_fails_before(
    params: Map<Seq<char>, DynView>,
    schema: Seq<FieldSpecView>,
    i: int,
) -> bool {
    forall|j: int| 0 <= j < i ==> (#[trigger] resolve(params, schema[j])) is Ok
}

/// Extraction fails with the error of the first field that fails, whichever
/// field that is.
pub proof fn extraction_fails_at_first_failure(
    params: Map<Seq<char>, DynView>,
    schema: Seq<FieldSpecView>,
    i: int,
)
    requires
        first_failure(params, schema, i),
    ensures
        extraction(params, schema) == Err::<Seq<(Seq<char>, FieldView)>, ExtractErrorView>(
            resolve(params, schema[i])->Err_0,
        ),
{
    let k = choose|k: int| first_failure(params, schema, k);
    first_failure_is_unique(params, schema, i, k);
}

/// Where a field fails, some field is the first to fail.
pub proof fn some_field_fails_first(
    params: Map<Seq<char>, DynView>,
    schema: Seq<FieldSpecView>,
    i: int,
) -> (k: int)
    requires
        0 <= i < schema.len(),
        resolve(params, schema[i]) is Err,
    ensures
        0 <= k <= i,
        first_failure(params, schema, k),
    decreases i,
{
    if forall|j: int| 0 <= j < i ==> (#[trigger] resolve(params, schema[j])) is Ok {
        i
    } else {
        let j = choose|j: int| 0 <= j < i && !((#[trigger] resolve(params, schema[j])) is Ok);
        some_field_fails_first(params, schema, j)
    }
}

/// Extraction from parameters that lack a required field fails, whatever
/// else they hold.
pub proof fn missing_required_field_fails(
    params: Map<Seq<char>, DynView>,
    schema: Seq<FieldSpecView>,
    i: int,
)
    requires
        0 <= i < schema.len(),
        schema[i].required,
        !params.contains_key(schema[i].name),
    ensures
        extraction(params, schema) is Err,
{
    let k = some_field_fails_first(params, schema, i);
    extraction_fails_at_first_failure(params, schema, k);
}

/// Extraction from parameters that lack a required field fails with
/// `MissingField` naming that field, where no field declared before it
/// fails.
pub proof fn missing_required_field_is_named(
    params: Map<Seq<char>, DynView>,
    schema: Seq<FieldSpecView>,
    i: int,
)
    requires
        0 <= i < schema.len(),
        schema[i].required,
        !params.contains_key(schema[i].name),
        none_fails_before(params, schema, i),
    ensures
        extraction(params, schema) == Err::<Seq<(Seq<char>, FieldView)>, ExtractErrorView>(
            ExtractErrorView::MissingField { name: schema[i].name },
        ),
{
    extraction_fails_at_first_failure(params, schema, i);
}

/// Extraction from parameters that bind a required field to a value that
/// its type does not accept fails, whatever else they hold.
pub proof fn mistyped_required_field_fails(
    params: Map<Seq<char>, DynView>,
    schema: Seq<FieldSpecView>,
    i: int,
)
    requires
        0 <= i < schema.len(),
        schema[i].required,
        params.contains_key(schema[i].name),
        coerce(params[schema[i].name], schema[i].ty) is None,
    ensures
        extraction(params, schema) is Err,
{
    let k = some_field_fails_first(params, schema, i);
    extraction_fails_at_first_failure(params, schema, k);
}

/// Extraction from parameters that bind a required field to a value that
/// its type does not accept fails with `TypeMismatch` naming that field and
/// its type, where no field declared before it fails.
pub proof fn mistyped_required_field_is_named(
    params: Map<Seq<char>, DynView>,
    schema: Seq<FieldSpecView>,
    i: int,
)
    requires
        0 <= i < schema.len(),
        schema[i].required,
        params.contains_key(schema[i].name),
        coerce(params[schema[i].name], schema[i].ty) is None,
        none_fails_before(params, schema, i),
    ensures
        extraction(params, schema) == Err::<Seq<(Seq<char>, FieldView)>, ExtractErrorView>(
            ExtractErrorView::TypeMismatch { name: schema[i].name, expected: schema[i].ty },
        ),
{
    extraction_fails_at_first_failure(params, schema, i);
}

/// Whether every required field of `schema` is bound to a value that its
/// type accepts.
pub open spec fn required_fields_supplied(
    params: Map<Seq<char>, DynView>,
    schema: Seq<FieldSpecView>,
) -> bool {
    forall|j: int|
        0 <= j < schema.len() && (#[trigger] schema[j]).required ==> supplied(params, schema[j])
}

/// Extraction succeeds exactly where every required field is supplied.
pub proof fn extraction_succeeds_iff_required_supplied(
    params: Map<Seq<char>, DynView>,
    schema: Seq<FieldSpecView>,
)
    ensures
        extraction(params, schema) is Ok <==> required_fields_supplied(params, schema),
{
    if required_fields_supplied(params, schema) {
        assert forall|i: int| 0 <= i < schema.len() implies (#[trigger] resolve(
            params,
            schema[i],
        )) is Ok by {
            if schema[i].required {
                assert(supplied(params, schema[i]));
            }
        }
    } else {
        let j = choose|j: int|
            0 <= j < schema.len() && (#[trigger] schema[j]).required && !supplied(
                params,
                schema[j],
            );
        assert(resolve(params, schema[j]) is Err);
    }
}

/// An optional field that is absent, or bound to a value that its type does
/// not accept, resolves to its declared default and raises no error; where
/// the required fields are supplied, extraction succeeds and the field
/// holds that default.
pub proof fn unsupplied_optional_field_takes_default(
    params: Map<Seq<char>, DynView>,
    schema: Seq<FieldSpecView>,
    i: int,
)
    requires
        0 <= i < schema.len(),
        !schema[i].required,
        !supplied(params, schema[i]),
    ensures
        resolve(params, schema[i]) == Ok::<FieldView, ExtractErrorView>(schema[i].default),
        required_fields_supplied(params, schema) ==> extraction(params, schema) is Ok
            && extraction(params, schema)->Ok_0[i] == (schema[i].name, schema[i].default),
{
    extraction_succeeds_iff_required_supplied(params, schema);
}

/// A binding under a name that the schema does not declare changes nothing.
pub proof fn undeclared_binding_is_ignored(
    params: Map<Seq<char>, DynView>,
    schema: Seq<FieldSpecView>,
    key: Seq<char>,
    value: DynView,
)
    requires
        forall|i: int| 0 <= i < schema.len() ==> (#[trigger] schema[i]).name != key,
    ensures
        extraction(params.insert(key, value), schema) == extraction(params, schema),
{
    let more = params.insert(key, value);
    assert forall|i: int| 0 <= i < schema.len() implies resolve(more, #[trigger] schema[i])
        == resolve(params, schema[i]) by {
        assert(schema[i].name != key);
    }
    if all_resolve(params, schema) {
        assert(all_resolve(more, schema));
        assert(resolved_fields(more, schema) =~= resolved_fields(params, schema));
    } else {
        let i = choose|i: int| first_failure(params, schema, i);
        let bad = choose|j: int|
            0 <= j < schema.len() && !((#[trigger] resolve(params, schema[j])) is Ok);
        let k = some_field_fails_first(params, schema, bad);
        first_failure_is_unique(params, schema, i, k);
        assert(first_failure(more, schema, i));
        extraction_fails_at_first_failure(more, schema, i);
    }
}

/// An extracted configuration has one field for each declared field, under
/// its name and in its place; each holds a value of the declared type or is
/// unset, and a required field is never unset.
pub proof fn extracted_fields_follow_schema(
    params: Map<Seq<char>, DynView>,
    schema: Seq<FieldSpecView>,
    i: int,
)
    requires
        schema_wf(schema),
        extraction(params, schema) is Ok,
        0 <= i < schema.len(),
    ensures
        extraction(params, schema)->Ok_0.len() == schema.len(),
        extraction(params, schema)->Ok_0[i].0 == schema[i].name,
        extraction(params, schema)->Ok_0[i].1.conforms(schema[i].ty),
        schema[i].required ==> !(extraction(params, schema)->Ok_0[i].1 is Unset),
{
    assert(resolve(params, schema[i]) is Ok);
    assert(schema[i].wf());
}

/// The number that `params` supply under `name`, if they supply one.
pub open spec fn supplied_number(params: Map<Seq<char>, DynView>, name: Seq<char>) -> Option<int> {
    if params.contains_key(name) {
        match coerce(params[name], FieldType::Number) {
            Some(FieldView::Number(n)) => Some(n),
            _ => None,
        }
    } else {
        None
    }
}

/// The POST that is built from accepted parameters carries exactly what was
/// configured: the method is POST, the target is the string bound to `url`,
/// headers and body are those of the payload, and the timeout is the number
/// bound to `timeout`, or left out where none is.
pub proof fn post_carries_what_was_configured(params: Map<Seq<char>, DynView>, payload: PayloadView)
    requires
        extraction(params, http_fields()) is Ok,
    ensures
        params.contains_key("url"@),
        params["url"@] is Str,
        post_of(extraction(params, http_fields())->Ok_0, payload) == Some(
            HttpRequestView {
                method: Method::Post,
                url: params["url"@]->Str_0,
                headers: payload.headers,
                body: payload.body,
                timeout: supplied_number(params, "timeout"@),
            },
        ),
{
    reveal_strlit("url");
    reveal_strlit("timeout");
    let schema = http_fields();
    let config = extraction(params, schema)->Ok_0;
    assert(resolve(params, schema[0]) is Ok);
    assert(resolve(params, schema[1]) is Ok);
    assert("url"@ != "timeout"@) by {
        assert("url"@.len() == 3);
        assert("timeout"@.len() == 7);
    }
    assert(config[0].0 == "url"@);
    assert(lookup(config, "url"@) == Some(config[0].1));
    assert(config.drop_first()[0] == config[1]);
    assert(lookup(config.drop_first(), "timeout"@) == Some(config[1].1));
    assert(lookup(config, "timeout"@) == Some(config[1].1));
}

/// The options of a connection are the fields of the configuration that
/// have a value, but for the address: none is added, none is left out, and
/// none is unset.
pub proof fn connection_passes_the_set_fields(
    config: Seq<(Seq<char>, FieldView)>,
    field: (Seq<char>, FieldView),
)
    requires
        connection_of(config) is Some,
    ensures
        connection_of(config)->Some_0.options.contains(field) <==> config.contains(field)
            && field.0 != "url"@ && !(field.1 is Unset),
{
    let keep = |f: (Seq<char>, FieldView)| is_option(f);
    let options = connection_of(config)->Some_0.options;
    assert(options == config.filter(keep));
    if options.contains(field) {
        config.lemma_filter_contains_rev(keep, field);
        let k = choose|k: int| 0 <= k < options.len() && options[k] == field;
        config.lemma_filter_pred(keep, k);
    }
    if config.contains(field) && is_option(field) {
        let i = choose|i: int| 0 <= i < config.len() && config[i] == field;
        config.lemma_filter_contains(keep, i);
    }
}

/// The connection that is built from accepted parameters goes to the string
/// bound to `url`.
pub proof fn connection_goes_to_configured_address(params: Map<Seq<char>, DynView>)
    requires
        extraction(params, node_fields()) is Ok,
    ensures
        params.contains_key("url"@),
        params["url"@] is Str,
        connection_of(extraction(params, node_fields())->Ok_0) is Some,
        connection_of(extraction(params, node_fields())->Ok_0)->Some_0.url
            == params["url"@]->Str_0,
{
    let schema = node_fields();
    let config = extraction(params, schema)->Ok_0;
    assert(resolve(params, schema[0]) is Ok);
    assert(config[0].0 == "url"@);
    assert(lookup(config, "url"@) == Some(config[0].1));
}

/// A failed extraction is reported as a missing field or as a type
/// mismatch, never as a failure of the network operation.
pub proof fn extraction_failures_have_their_own_kinds(e: ExtractErrorView)
    ensures
        e is MissingField <==> extraction_detail(e).category == ErrorCategory::MissingField,
        e is TypeMismatch <==> extraction_detail(e).category == ErrorCategory::TypeMismatch,
{
}

/// Without an answer from the transport the call fails on the transport,
/// with the transport's message, whatever was expected.
pub proof fn no_answer_is_a_transport_failure(shape: ShapeView, message: Seq<char>)
    ensures
        outcome_of(shape, ReplyView::Failed { message }) == OutcomeView::Failure(
            ErrorDetailView { category: ErrorCategory::TransportError, message },
        ),
{
}

/// A response that arrived with success and cannot be decoded as expected
/// is a failure to decode, not a failure of the transport.
pub proof fn undecodable_body_is_a_decode_failure(
    field: Seq<char>,
    record: Seq<FieldSpecView>,
    status: int,
    headers: Seq<(Seq<char>, Seq<char>)>,
    body: Seq<char>,
)
    requires
        is_success_status(status),
        embedded_record(body, field, record) is Err,
    ensures
        outcome_of(
            ShapeView::Embedded { field, record },
            ReplyView::Response { status, headers, body },
        ) == OutcomeView::Failure(decode_failure(embedded_record(body, field, record)->Err_0)),
{
}

/// A call succeeds only on a connection, or on a response whose status is
/// from 200 to 299; and the network operation never fails as a missing
/// field or a type mismatch.
pub proof fn outcomes_have_their_kinds(shape: ShapeView, reply: ReplyView)
    ensures
        outcome_of(shape, reply) is Success ==> reply is Connected || (reply is Response
            && is_success_status(reply->status)),
        outcome_of(shape, reply) matches OutcomeView::Failure(d) ==> d.category
            == ErrorCategory::TransportError || d.category == ErrorCategory::DecodeError,
        outcome_of(shape, reply) matches OutcomeView::Failure(d) ==> (d.category
            == ErrorCategory::DecodeError <==> reply is Response && is_success_status(
            reply->status,
        )),
{
}

/// How far a call has come.
pub open spec fn rank(state: StateView) -> nat {
    match state {
        StateView::Idle { .. } => 0,
        StateView::Building { .. } => 1,
        StateView::InFlight { .. } => 2,
        StateView::Decoded => 3,
        StateView::Failed => 3,
    }
}

/// Whether an action hands something to the network.
pub open spec fn goes_out(action: ActionView) -> bool {
    action is Send || action is Connect
}

/// The state after a sequence of events, and the actions on the way.
pub open spec fn run(state: StateView, events: Seq<EventView>) -> (StateView, Seq<ActionView>)
    decreases events.len(),
{
    if events.len() == 0 {
        (state, Seq::empty())
    } else {
        let (after, action) = next(state, events[0]);
        let (last, actions) = run(after, events.drop_first());
        (last, seq![action] + actions)
    }
}

/// How many of the actions hand something to the network.
pub open spec fn count_sent(actions: Seq<ActionView>) -> nat
    decreases actions.len(),
{
    if actions.len() == 0 {
        0
    } else {
        count_sent(actions.drop_first()) + if goes_out(actions[0]) { 1nat } else { 0nat }
    }
}

/// A call never goes back: an event either leaves the state as it is, with
/// nothing to do, or takes the call exactly one phase further, or ends it.
/// Something goes out only on the way from building to in flight.
pub proof fn a_call_only_advances(state: StateView, event: EventView)
    ensures
        next(state, event).1 is Nothing <==> next(state, event).0 == state,
        !(next(state, event).1 is Nothing) ==> rank(next(state, event).0) == rank(state) + 1
            || next(state, event).0 is Failed,
        goes_out(next(state, event).1) <==> state is Building && next(state, event).0 is InFlight,
        next(state, event).1 is Finish <==> rank(state) < 3 && rank(next(state, event).0) == 3,
{
}

/// A call that has ended takes no further event: no retry, no second
/// start.
pub proof fn a_finished_call_is_final(state: StateView, event: EventView)
    requires
        state is Decoded || state is Failed,
    ensures
        next(state, event) == (state, ActionView::Nothing),
{
}

/// A call ends decoded exactly with a success, and failed exactly with a
/// failure.
pub proof fn the_end_matches_the_outcome(state: StateView, event: EventView)
    requires
        next(state, event).1 is Finish,
    ensures
        next(state, event).1->outcome is Success <==> next(state, event).0 is Decoded,
        next(state, event).1->outcome is Failure <==> next(state, event).0 is Failed,
{
}

/// Whatever events arrive, a call hands at most one request to the network,
/// and none once it is in flight or over.
pub proof fn a_call_sends_at_most_once(state: StateView, events: Seq<EventView>)
    ensures
        count_sent(run(state, events).1) <= 1,
        rank(state) >= 2 ==> count_sent(run(state, events).1) == 0,
    decreases events.len(),
{
    if events.len() > 0 {
        let (after, action) = next(state, events[0]);
        a_call_only_advances(state, events[0]);
        a_call_sends_at_most_once(after, events.drop_first());
        let actions = run(after, events.drop_first()).1;
        assert((seq![action] + actions).drop_first() =~= actions);
    }
}

/// A call whose parameters are not accepted ends at once, with the failure
/// of the extraction, and hands nothing to the network, whatever events
/// follow.
pub proof fn a_rejected_call_sends_nothing(
    operation: OperationView,
    params: Map<Seq<char>, DynView>,
    later: Seq<EventView>,
)
    requires
        extraction(params, fields_of(operation)) is Err,
    ensures
        next(StateView::Idle { operation }, EventView::Start { params }) == rejected(
            extraction(params, fields_of(operation))->Err_0,
        ),
        count_sent(
            run(StateView::Idle { operation }, seq![EventView::Start { params }] + later).1,
        ) == 0,
{
    let events = seq![EventView::Start { params }] + later;
    assert(events.drop_first() =~= later);
    a_call_sends_at_most_once(StateView::Failed, later);
    let actions = run(StateView::Failed, later).1;
    let first = next(StateView::Idle { operation }, events[0]).1;
    assert((seq![first] + actions).drop_first() =~= actions);
}

/// A call without `url` is rejected with `MissingField` naming `url`, and
/// one whose `url` is no string with `TypeMismatch`, for either operation.
pub proof fn a_call_needs_its_target(operation: OperationView, params: Map<Seq<char>, DynView>)
    ensures
        !params.contains_key("url"@) ==> extraction(params, fields_of(operation)) == Err::<
            Seq<(Seq<char>, FieldView)>,
            ExtractErrorView,
        >(ExtractErrorView::MissingField { name: "url"@ }),
        params.contains_key("url"@) && !(params["url"@] is Str) ==> extraction(
            params,
            fields_of(operation),
        ) == Err::<Seq<(Seq<char>, FieldView)>, ExtractErrorView>(
            ExtractErrorView::TypeMismatch { name: "url"@, expected: FieldType::Text },
        ),
{
    let schema = fields_of(operation);
    assert(schema[0].name == "url"@ && schema[0].required && schema[0].ty == FieldType::Text);
    if !params.contains_key("url"@) {
        missing_required_field_is_named(params, schema, 0);
    } else if !(params["url"@] is Str) {
        mistyped_required_field_is_named(params, schema, 0);
    }
}

/// The whole course of a POST whose parameters are accepted: the request
/// that goes out is built from this call's configuration and payload, and
/// the call ends with the outcome and the trace that this call's reply
/// gives. Nothing else enters: two calls share nothing, and the same call
/// made again runs the same course.
pub proof fn course_of_a_post(
    params: Map<Seq<char>, DynView>,
    payload: PayloadView,
    shape: ShapeView,
    reply: ReplyView,
)
    requires
        extraction(params, http_fields()) is Ok,
    ensures
        ({
            let operation = OperationView::Post { payload, shape };
            let events = seq![
                EventView::Start { params },
                EventView::Proceed,
                EventView::Reply { reply },
            ];
            let config = extraction(params, http_fields())->Ok_0;
            let outcome = outcome_of(shape, reply);
            &&& post_of(config, payload) is Some
            &&& post_of(config, payload)->Some_0.headers == payload.headers
            &&& run(StateView::Idle { operation }, events).1 == seq![
                ActionView::Advance,
                ActionView::Send { request: post_of(config, payload)->Some_0 },
                ActionView::Finish { outcome, trace: trace_of(reply) },
            ]
            &&& run(StateView::Idle { operation }, events).0 == if outcome is Success {
                StateView::Decoded
            } else {
                StateView::Failed
            }
        }),
{
    post_carries_what_was_configured(params, payload);
    let operation = OperationView::Post { payload, shape };
    run_of_three(
        StateView::Idle { operation },
        EventView::Start { params },
        EventView::Proceed,
        EventView::Reply { reply },
    );
}

/// The whole course of a connection whose parameters are accepted: what
/// goes out is built from this call's configuration, and the call ends with
/// the outcome and the trace that this call's reply gives.
pub proof fn course_of_a_connection(params: Map<Seq<char>, DynView>, reply: ReplyView)
    requires
        extraction(params, node_fields()) is Ok,
    ensures
        ({
            let events = seq![
                EventView::Start { params },
                EventView::Proceed,
                EventView::Reply { reply },
            ];
            let config = extraction(params, node_fields())->Ok_0;
            let outcome = outcome_of(ShapeView::Text, reply);
            &&& connection_of(config) is Some
            &&& run(StateView::Idle { operation: OperationView::Connect }, events).1 == seq![
                ActionView::Advance,
                ActionView::Connect { connection: connection_of(config)->Some_0 },
                ActionView::Finish { outcome, trace: trace_of(reply) },
            ]
            &&& run(StateView::Idle { operation: OperationView::Connect }, events).0
                == if outcome is Success {
                StateView::Decoded
            } else {
                StateView::Failed
            }
        }),
{
    connection_goes_to_configured_address(params);
    run_of_three(
        StateView::Idle { operation: OperationView::Connect },
        EventView::Start { params },
        EventView::Proceed,
        EventView::Reply { reply },
    );
}

proof fn run_unfolds(state: StateView, first: EventView, rest: Seq<EventView>)
    ensures
        run(state, seq![first] + rest).0 == run(next(state, first).0, rest).0,
        run(state, seq![first] + rest).1 == seq![next(state, first).1] + run(
            next(state, first).0,
            rest,
        ).1,
{
    let events = seq![first] + rest;
    assert(events[0] == first);
    assert(events.drop_first() =~= rest);
}

proof fn run_of_three(s0: StateView, e0: EventView, e1: EventView, e2: EventView)
    ensures
        ({
            let (s1, a0) = next(s0, e0);
            let (s2, a1) = next(s1, e1);
            let (s3, a2) = next(s2, e2);
            run(s0, seq![e0, e1, e2]) == (s3, seq![a0, a1, a2])
        }),
{
    let (s1, a0) = next(s0, e0);
    let (s2, a1) = next(s1, e1);
    let (s3, a2) = next(s2, e2);
    let none = Seq::<EventView>::empty();
    run_unfolds(s2, e2, none);
    run_unfolds(s1, e1, seq![e2]);
    run_unfolds(s0, e0, seq![e1, e2]);
    assert(seq![e2] + none =~= seq![e2]);
    assert(seq![e1] + seq![e2] =~= seq![e1, e2]);
    assert(seq![e0] + seq![e1, e2] =~= seq![e0, e1, e2]);
    assert(run(s3, none).1 =~= Seq::<ActionView>::empty());
    assert(seq![a2] + Seq::<ActionView>::empty() =~= seq![a2]);
    assert(seq![a1] + seq![a2] =~= seq![a1, a2]);
    assert(seq![a0] + seq![a1, a2] =~= seq![a0, a1, a2]);
}

} // verus!

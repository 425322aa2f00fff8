//! Requests to the service, and what comes back.

use vstd::prelude::*;
use vstd::string::StringExecFns;

use crate::error::{result_view, ClientError, ClientErrorView};
use crate::model::{ApiErrorResponse, ApiResponse};

verus! {

pub const API_BASE_URL: &'static str = "https://cloud.lambdalabs.com/api/v1";

/// How long a request may take, in seconds.
pub const DEFAULT_TIMEOUT_SECS: u64 = 30;

/// How long it may take to connect, in seconds.
pub const CONNECT_TIMEOUT_SECS: u64 = 10;

#[derive(Debug, Clone, Copy, PartialEq, Eq, Structural)]
pub enum Method {
    Get,
    Post,
    Delete,
}

/// A request that is ready to be sent. A body is JSON.
pub struct ApiRequest {
    pub method: Method,
    pub url: String,
    pub authorization: String,
    pub body: Option<String>,
}

/// An `ApiRequest`, with texts for strings.
pub struct RequestView {
    pub method: Method,
    pub url: Seq<char>,
    pub authorization: Seq<char>,
    pub body: Option<Seq<char>>,
}

impl View for ApiRequest {
    type V = RequestView;

    open spec fn view(&self) -> RequestView {
        RequestView {
            method: self.method,
            url: self.url@,
            authorization: self.authorization@,
            body: match self.body {
                Some(text) => Some(text@),
                None => None,
            },
        }
    }
}

/// The request for `path`, authorized by the API key `key`.
pub open spec fn request_view(
    method: Method,
    path: Seq<char>,
    key: Seq<char>,
    body: Option<Seq<char>>,
) -> RequestView {
    RequestView {
        method,
        url: API_BASE_URL@ + path,
        authorization: "Bearer "@ + key,
        body,
    }
}

impl ApiRequest {
    /// The request for `path`, authorized by the API key `key`.
    pub fn new(method: Method, path: &str, key: &str, body: Option<String>) -> (request: ApiRequest)
        ensures
            request@ == request_view(
                method,
                path@,
                key@,
                match body {
                    Some(text) => Some(text@),
                    None => None,
                },
            ),
    {
        ApiRequest {
            method,
            url: API_BASE_URL.to_owned().concat(path),
            authorization: "Bearer ".to_owned().concat(key),
            body,
        }
    }
}

/// The digit of a number below ten.
pub open spec fn digit(n: u16) -> char {
    (n + 0x30) as char
}

/// A number below one thousand in three digits.
pub open spec fn three_digits(n: u16) -> Seq<char> {
    seq![digit(n / 100), digit(n / 10 % 10), digit(n % 10)]
}

/// The phrase that is shown for the reason of an HTTP status.
pub uninterp spec fn reason_phrase(code: u16) -> Seq<char>;

/// The text of an HTTP status: its number and its reason.
pub open spec fn status_text(code: u16) -> Seq<char> {
    three_digits(code) + " "@ + reason_phrase(code)
}

/// `Display` of `reqwest::StatusCode` (which is `http::StatusCode`): the number, a space and a
/// phrase, which is known by its name only (the canonical reason, or one phrase for all numbers
/// that have none). The numbers from 100 to 999 are those that `StatusCode::from_u16` takes.
#[verifier::external_body]
fn display_status(code: u16) -> (text: String)
    requires
        100 <= code <= 999,
    ensures
        text@ == three_digits(code) + " "@ + reason_phrase(code),
{
    match reqwest::StatusCode::from_u16(code) {
        Ok(status) => status.to_string(),
        Err(_) => String::new(),
    }
}

/// An HTTP status: a number from 100 to 999.
#[derive(Debug, Clone, Copy)]
pub struct HttpStatus {
    code: u16,
}

impl View for HttpStatus {
    type V = u16;

    closed spec fn view(&self) -> u16 {
        self.code
    }
}

/// The statuses of success.
pub open spec fn is_success_code(code: u16) -> bool {
    200 <= code <= 299
}

impl HttpStatus {
    #[verifier::type_invariant]
    spec fn in_range(self) -> bool {
        100 <= self.code <= 999
    }

    /// The status with this number, if there is one.
    pub fn new(code: u16) -> (status: Option<HttpStatus>)
        ensures
            status is Some <==> 100 <= code <= 999,
            status is Some ==> status->0@ == code,
    {
        if 100 <= code && code <= 999 {
            Some(HttpStatus { code })
        } else {
            None
        }
    }

    /// Whether the request succeeded: the body is then the answer, and otherwise the refusal.
    pub fn is_success(&self) -> (success: bool)
        ensures
            success == is_success_code(self@),
    {
        200 <= self.code && self.code <= 299
    }

    /// The number and the canonical reason.
    pub fn text(&self) -> (text: String)
        ensures
            text@ == status_text(self@),
    {
        proof {
            use_type_invariant(self);
        }
        display_status(self.code)
    }
}

/// A status of success.
#[derive(Debug, Clone, Copy)]
pub struct SuccessStatus {
    status: HttpStatus,
}

impl View for SuccessStatus {
    type V = u16;

    closed spec fn view(&self) -> u16 {
        self.status@
    }
}

impl SuccessStatus {
    #[verifier::type_invariant]
    spec fn succeeded(self) -> bool {
        is_success_code(self.status@)
    }
}

/// A status that is none of success.
#[derive(Debug, Clone, Copy)]
pub struct FailureStatus {
    status: HttpStatus,
}

impl View for FailureStatus {
    type V = u16;

    closed spec fn view(&self) -> u16 {
        self.status@
    }
}

impl FailureStatus {
    #[verifier::type_invariant]
    spec fn failed(self) -> bool {
        !is_success_code(self.status@)
    }

    /// The number and the canonical reason.
    pub fn text(&self) -> (text: String)
        ensures
            text@ == status_text(self@),
    {
        self.status.text()
    }
}

/// Which of the two a status is, and so how the body is to be read.
#[derive(Debug, Clone, Copy)]
pub enum StatusClass {
    /// The body is the answer.
    Success(SuccessStatus),
    /// The body is the refusal.
    Failure(FailureStatus),
}

impl HttpStatus {
    /// Which of the two the status is.
    pub fn classify(self) -> (class: StatusClass)
        ensures
            match class {
                StatusClass::Success(status) => is_success_code(self@) && status@ == self@,
                StatusClass::Failure(status) => !is_success_code(self@) && status@ == self@,
            },
    {
        if self.is_success() {
            StatusClass::Success(SuccessStatus { status: self })
        } else {
            StatusClass::Failure(FailureStatus { status: self })
        }
    }
}

/// How a request ended whose answer is read as a `T`. `E` is the error of the transport.
#[derive(Debug)]
pub enum Exchange<T, E> {
    /// The request did not get through.
    NotSent(E),
    /// The status was none of success; the error body, if it could be read.
    Refused(FailureStatus, Option<ApiErrorResponse>),
    /// The status was one of success, and the body could not be read.
    Unreadable(SuccessStatus, E),
    /// The status was one of success, and this is the body.
    Answered(SuccessStatus, ApiResponse<T>),
}

/// How a request ended that has no answer but its status.
#[derive(Debug)]
pub enum Receipt<E> {
    /// The request did not get through.
    NotSent(E),
    /// The status was none of success; the error body, if it could be read.
    Refused(FailureStatus, Option<ApiErrorResponse>),
    /// The status was one of success.
    Accepted(SuccessStatus),
}

impl<T, E> Exchange<T, E> {
    /// The number of the status, where the request got through.
    pub open spec fn status(self) -> Option<u16> {
        match self {
            Exchange::NotSent(_) => None,
            Exchange::Refused(status, _) => Some(status@),
            Exchange::Unreadable(status, _) => Some(status@),
            Exchange::Answered(status, _) => Some(status@),
        }
    }

    /// The error body.
    pub open spec fn error(self) -> Option<ApiErrorResponse> {
        match self {
            Exchange::Refused(_, error) => error,
            _ => None,
        }
    }

    /// The request counts as refused exactly when its status is none of success. This holds of
    /// every exchange that can be made.
    pub open spec fn goes_by_status(self) -> bool {
        self.status() is Some ==> (self is Refused <==> !is_success_code(self.status()->0))
    }
}

impl<E> Receipt<E> {
    /// The number of the status, where the request got through.
    pub open spec fn status(self) -> Option<u16> {
        match self {
            Receipt::NotSent(_) => None,
            Receipt::Refused(status, _) => Some(status@),
            Receipt::Accepted(status) => Some(status@),
        }
    }

    /// The error body.
    pub open spec fn error(self) -> Option<ApiErrorResponse> {
        match self {
            Receipt::Refused(_, error) => error,
            _ => None,
        }
    }

    /// The request counts as refused exactly when its status is none of success. This holds of
    /// every receipt that can be made.
    pub open spec fn goes_by_status(self) -> bool {
        self.status() is Some ==> (self is Refused <==> !is_success_code(self.status()->0))
    }
}

/// The receipt of a request that came back with `status`, and with this error body if it has one.
pub fn receipt_of<E>(status: HttpStatus, error: Option<ApiErrorResponse>) -> (receipt: Receipt<E>)
    ensures
        receipt.status() == Some(status@),
        is_success_code(status@) ==> receipt is Accepted,
        !is_success_code(status@) ==> receipt is Refused && receipt.error() == error,
{
    match status.classify() {
        StatusClass::Success(success) => Receipt::Accepted(success),
        StatusClass::Failure(failure) => Receipt::Refused(failure, error),
    }
}

/// The exchange of a request that came back with success, by whether its body could be read.
pub fn exchange_of<T, E>(status: SuccessStatus, read: Result<ApiResponse<T>, E>) -> (exchange:
    Exchange<T, E>)
    ensures
        exchange == match read {
            Ok(response) => Exchange::Answered(status, response),
            Err(cause) => Exchange::Unreadable(status, cause),
        },
{
    match read {
        Ok(response) => Exchange::Answered(status, response),
        Err(cause) => Exchange::Unreadable(status, cause),
    }
}

/// Why the service says it refused.
pub open spec fn refusal_reason(error: Option<ApiErrorResponse>) -> Seq<char> {
    match error {
        Some(response) => response.error.message@,
        None => "Unknown error"@,
    }
}

/// What has failed, with the status in brackets where there is one, and why.
pub open spec fn refusal_message(
    failure: Seq<char>,
    status: Option<Seq<char>>,
    reason: Seq<char>,
) -> Seq<char> {
    match status {
        Some(text) => failure + " ("@ + text + "): "@ + reason,
        None => failure + ": "@ + reason,
    }
}

/// What has failed, with the status in brackets where there is one, and why.
pub fn word_refusal(failure: &str, status: Option<&str>, reason: &str) -> (message: String)
    ensures
        message@ == refusal_message(
            failure@,
            match status {
                Some(text) => Some(text@),
                None => None,
            },
            reason@,
        ),
{
    match status {
        Some(text) => failure.to_owned().concat(" (").concat(text).concat("): ").concat(reason),
        None => failure.to_owned().concat(": ").concat(reason),
    }
}

/// Why the service says it refused.
pub fn parse_error_response(error: Option<ApiErrorResponse>) -> (reason: String)
    ensures
        reason@ == refusal_reason(error),
{
    match error {
        Some(response) => response.error.message,
        None => "Unknown error".to_owned(),
    }
}

/// How the failures of one kind of request are worded.
pub struct Wording {
    /// For a request that did not get through.
    pub sending: &'static str,
    /// For a refusal.
    pub refusal: &'static str,
    /// Whether a refusal shows the status.
    pub shows_status: bool,
}

/// A `Wording`, with texts for strings.
pub struct WordingView {
    pub sending: Seq<char>,
    pub refusal: Seq<char>,
    pub shows_status: bool,
}

impl View for Wording {
    type V = WordingView;

    open spec fn view(&self) -> WordingView {
        WordingView {
            sending: self.sending@,
            refusal: self.refusal@,
            shows_status: self.shows_status,
        }
    }
}

/// The failure that a refusal comes to.
pub open spec fn refused<E>(
    words: WordingView,
    code: u16,
    error: Option<ApiErrorResponse>,
) -> ClientErrorView<E> {
    ClientErrorView::Message(
        refusal_message(
            words.refusal,
            if words.shows_status {
                Some(status_text(code))
            } else {
                None
            },
            refusal_reason(error),
        ),
    )
}

/// What an exchange comes to. `reading` words the failure of an answer that cannot be read.
pub open spec fn settled<T, E>(
    exchange: Exchange<T, E>,
    words: WordingView,
    reading: Seq<char>,
) -> Result<T, ClientErrorView<E>> {
    match exchange {
        Exchange::NotSent(cause) => Err(ClientErrorView::Context(words.sending, cause)),
        Exchange::Refused(status, error) => Err(refused(words, status@, error)),
        Exchange::Unreadable(_, cause) => Err(ClientErrorView::Context(reading, cause)),
        Exchange::Answered(_, response) => Ok(response.data),
    }
}

/// What a receipt comes to.
pub open spec fn acknowledged<E>(receipt: Receipt<E>, words: WordingView) -> Result<
    (),
    ClientErrorView<E>,
> {
    match receipt {
        Receipt::NotSent(cause) => Err(ClientErrorView::Context(words.sending, cause)),
        Receipt::Refused(status, error) => Err(refused(words, status@, error)),
        Receipt::Accepted(_) => Ok(()),
    }
}

fn refuse<E>(words: &Wording, status: FailureStatus, error: Option<ApiErrorResponse>) -> (failed:
    ClientError<E>)
    ensures
        failed@ == refused::<E>(words@, status@, error),
{
    let reason = parse_error_response(error);
    if words.shows_status {
        let text = status.text();
        ClientError::Message(word_refusal(words.refusal, Some(text.as_str()), reason.as_str()))
    } else {
        ClientError::Message(word_refusal(words.refusal, None, reason.as_str()))
    }
}

/// What an exchange comes to, with its failures in these words.
pub fn settle<T, E>(exchange: Exchange<T, E>, words: &Wording, reading: &str) -> (result: Result<
    T,
    ClientError<E>,
>)
    ensures
        result_view(result, |answer: T| answer) == settled(exchange, words@, reading@),
        exchange.goes_by_status(),
{
    match exchange {
        Exchange::NotSent(cause) => Err(ClientError::Context(words.sending.to_owned(), cause)),
        Exchange::Refused(status, error) => {
            proof {
                use_type_invariant(&status);
            }
            Err(refuse(words, status, error))
        },
        Exchange::Unreadable(status, cause) => {
            proof {
                use_type_invariant(&status);
            }
            Err(ClientError::Context(reading.to_owned(), cause))
        },
        Exchange::Answered(status, response) => {
            proof {
                use_type_invariant(&status);
            }
            Ok(response.data)
        },
    }
}

/// What a receipt comes to, with its failures in these words.
pub fn acknowledge<E>(receipt: Receipt<E>, words: &Wording) -> (result: Result<(), ClientError<E>>)
    ensures
        result_view(result, |answer: ()| answer) == acknowledged(receipt, words@),
        receipt.goes_by_status(),
{
    match receipt {
        Receipt::NotSent(cause) => Err(ClientError::Context(words.sending.to_owned(), cause)),
        Receipt::Refused(status, error) => {
            proof {
                use_type_invariant(&status);
            }
            Err(refuse(words, status, error))
        },
        Receipt::Accepted(status) => {
            proof {
                use_type_invariant(&status);
            }
            Ok(())
        },
    }
}

/// The status decides. A request that comes back with a status from 200 to 299 succeeds, provided
/// that its answer can be read; with any other status it is answered with the refusal, and without
/// a status it fails.
pub proof fn law_status_decides_an_exchange<T, E>(
    exchange: Exchange<T, E>,
    words: WordingView,
    reading: Seq<char>,
)
    requires
        exchange.goes_by_status(),
    ensures
        settled(exchange, words, reading) is Ok <==> exchange.status() is Some && is_success_code(
            exchange.status()->0,
        ) && !(exchange is Unreadable),
        exchange.status() is Some && !is_success_code(exchange.status()->0) ==> settled(
            exchange,
            words,
            reading,
        ) == Err::<T, ClientErrorView<E>>(refused(words, exchange.status()->0, exchange.error())),
{
}

/// The status decides. A request that has no answer but its status succeeds exactly when it comes
/// back with a status from 200 to 299; with any other status it is answered with the refusal.
pub proof fn law_status_decides_a_receipt<E>(receipt: Receipt<E>, words: WordingView)
    requires
        receipt.goes_by_status(),
    ensures
        acknowledged(receipt, words) is Ok <==> receipt.status() is Some && is_success_code(
            receipt.status()->0,
        ),
        receipt.status() is Some && !is_success_code(receipt.status()->0) ==> acknowledged(
            receipt,
            words,
        ) == Err::<(), ClientErrorView<E>>(refused(words, receipt.status()->0, receipt.error())),
{
}

/// The message of a refusal begins with what has failed and ends with the reason of the service;
/// where the service gives none that can be read, the reason is unknown.
pub proof fn law_refusal_names_the_failure_and_the_reason<E>(
    code: u16,
    error: Option<ApiErrorResponse>,
    words: WordingView,
)
    ensures
        refused::<E>(words, code, error) is Message,
        words.refusal.is_prefix_of(refused::<E>(words, code, error)->Message_0),
        refusal_reason(error).is_suffix_of(refused::<E>(words, code, error)->Message_0),
        error is None ==> refusal_reason(error) == "Unknown error"@,
{
    let message = refused::<E>(words, code, error)->Message_0;
    let reason = refusal_reason(error);
    assert(words.refusal =~= message.subrange(0, words.refusal.len() as int));
    assert(reason =~= message.subrange(message.len() - reason.len(), message.len() as int));
}

/// A failure of the transport is passed on as it came.
pub proof fn law_transport_failure_is_passed_on<T, E>(
    status: SuccessStatus,
    cause: E,
    words: WordingView,
    reading: Seq<char>,
)
    ensures
        settled(Exchange::<T, E>::NotSent(cause), words, reading) == Err::<T, ClientErrorView<E>>(
            ClientErrorView::Context(words.sending, cause),
        ),
        settled(Exchange::<T, E>::Unreadable(status, cause), words, reading) == Err::<
            T,
            ClientErrorView<E>,
        >(ClientErrorView::Context(reading, cause)),
        acknowledged(Receipt::NotSent(cause), words) == Err::<(), ClientErrorView<E>>(
            ClientErrorView::Context(words.sending, cause),
        ),
{
}

/// The statuses of success are those in the two hundreds.
pub proof fn law_success_is_in_the_two_hundreds(code: u16)
    ensures
        is_success_code(code) <==> code / 100 == 2,
{
}

/// The text of a status begins with its number in decimal, and goes on with a blank and the phrase.
pub proof fn law_status_text_begins_with_the_number(code: u16)
    requires
        code <= 999,
    ensures
        three_digits(code).len() == 3,
        forall|i: int| 0 <= i < 3 ==> '0' <= #[trigger] three_digits(code)[i] <= '9',
        (three_digits(code)[0] as int - '0' as int) * 100 + (three_digits(code)[1] as int
            - '0' as int) * 10 + (three_digits(code)[2] as int - '0' as int) == code,
        status_text(code) == three_digits(code) + " "@ + reason_phrase(code),
{
    let s = three_digits(code);
    assert(s[0] as int == code / 100 + 0x30);
    assert(s[1] as int == code / 10 % 10 + 0x30);
    assert(s[2] as int == code % 10 + 0x30);
}

/// A request goes to its path at the service, carries the key as a bearer token, and has the method
/// and the body that it was given: all of them as they are, whatever they are.
pub proof fn law_request_carries_path_key_and_body(
    method: Method,
    path: Seq<char>,
    key: Seq<char>,
    body: Option<Seq<char>>,
)
    ensures
        ({
            let request = request_view(method, path, key, body);
            &&& request.method == method
            &&& request.url == "https://cloud.lambdalabs.com/api/v1"@ + path
            &&& request.authorization == "Bearer "@ + key
            &&& request.body == body
        }),
{
}

/// A request and the wording of failures are seen with all that they hold.
pub proof fn law_request_views_lose_nothing(request: ApiRequest, words: Wording)
    ensures
        request@.method == request.method,
        request@.url == request.url@,
        request@.authorization == request.authorization@,
        request.body is None ==> request@.body is None,
        request.body is Some ==> request@.body == Some(request.body->0@),
        words@.sending == words.sending@,
        words@.refusal == words.refusal@,
        words@.shows_status == words.shows_status,
{
}

/// A refusal is worded with what has failed, with the status in brackets where it is to be shown,
/// and with all of the reason that the service gives, or the words for an unknown one.
pub proof fn law_refusal_is_worded_in_full<E>(
    words: WordingView,
    code: u16,
    response: ApiErrorResponse,
)
    ensures
        words.shows_status ==> refused::<E>(words, code, Some(response))
            == ClientErrorView::<E>::Message(
            words.refusal + " ("@ + three_digits(code) + " "@ + reason_phrase(code) + "): "@
                + response.error.message@,
        ),
        !words.shows_status ==> refused::<E>(words, code, Some(response)) == ClientErrorView::<
            E,
        >::Message(words.refusal + ": "@ + response.error.message@),
        words.shows_status ==> refused::<E>(words, code, None) == ClientErrorView::<E>::Message(
            words.refusal + " ("@ + three_digits(code) + " "@ + reason_phrase(code)
                + "): Unknown error"@,
        ),
        !words.shows_status ==> refused::<E>(words, code, None) == ClientErrorView::<E>::Message(
            words.refusal + ": Unknown error"@,
        ),
        refusal_reason(Some(response)) == response.error.message@,
        refusal_reason(None) == "Unknown error"@,
{
    reveal_strlit("): ");
    reveal_strlit(": ");
    reveal_strlit("Unknown error");
    reveal_strlit("): Unknown error");
    reveal_strlit(": Unknown error");
    let text = three_digits(code) + " "@ + reason_phrase(code);
    assert("): Unknown error"@ =~= "): "@ + "Unknown error"@);
    assert(": Unknown error"@ =~= ": "@ + "Unknown error"@);
    let message = response.error.message@;
    assert(words.refusal + " ("@ + text + "): "@ + message =~= words.refusal + " ("@ + three_digits(
        code,
    ) + " "@ + reason_phrase(code) + "): "@ + message);
    assert(words.refusal + " ("@ + text + "): "@ + "Unknown error"@ =~= words.refusal + " ("@
        + three_digits(code) + " "@ + reason_phrase(code) + "): Unknown error"@);
    assert(words.refusal + ": "@ + "Unknown error"@ =~= words.refusal + ": Unknown error"@);
}

/// The words for a refusal are put together from all their parts.
pub proof fn law_refusal_message_has_all_its_parts(
    failure: Seq<char>,
    status: Seq<char>,
    reason: Seq<char>,
)
    ensures
        refusal_message(failure, Some(status), reason) == failure + " ("@ + status + "): "@
            + reason,
        refusal_message(failure, None, reason) == failure + ": "@ + reason,
{
}

/// What becomes of a request, by how it ended: an answer is handed on as it is, and each failure is
/// told with the words for it and with its cause.
pub proof fn law_every_end_comes_to_its_result<T, E>(
    cause: E,
    success: SuccessStatus,
    failure: FailureStatus,
    error: Option<ApiErrorResponse>,
    response: ApiResponse<T>,
    words: WordingView,
    reading: Seq<char>,
)
    ensures
        settled(Exchange::<T, E>::Answered(success, response), words, reading) == Ok::<
            T,
            ClientErrorView<E>,
        >(response.data),
        settled(Exchange::<T, E>::Unreadable(success, cause), words, reading) == Err::<
            T,
            ClientErrorView<E>,
        >(ClientErrorView::Context(reading, cause)),
        settled(Exchange::<T, E>::Refused(failure, error), words, reading) == Err::<
            T,
            ClientErrorView<E>,
        >(refused(words, failure@, error)),
        settled(Exchange::<T, E>::NotSent(cause), words, reading) == Err::<T, ClientErrorView<E>>(
            ClientErrorView::Context(words.sending, cause),
        ),
        acknowledged(Receipt::<E>::Accepted(success), words) == Ok::<(), ClientErrorView<E>>(()),
        acknowledged(Receipt::<E>::Refused(failure, error), words) == Err::<
            (),
            ClientErrorView<E>,
        >(refused(words, failure@, error)),
        acknowledged(Receipt::NotSent(cause), words) == Err::<(), ClientErrorView<E>>(
            ClientErrorView::Context(words.sending, cause),
        ),
{
}

/// The end of a request has the status and the error body that came back, and counts as refused
/// exactly when that status is not in the two hundreds.
pub proof fn law_ends_have_their_status<T, E>(exchange: Exchange<T, E>, receipt: Receipt<E>)
    ensures
        exchange matches Exchange::Answered(status, _) ==> exchange.status() == Some(status@)
            && exchange.error() is None && (exchange.goes_by_status() <==> status@ / 100 == 2),
        exchange matches Exchange::Unreadable(status, _) ==> exchange.status() == Some(status@)
            && exchange.error() is None && (exchange.goes_by_status() <==> status@ / 100 == 2),
        exchange matches Exchange::Refused(status, error) ==> exchange.status() == Some(status@)
            && exchange.error() == error && (exchange.goes_by_status() <==> status@ / 100 != 2),
        exchange is NotSent ==> exchange.status() is None && exchange.error() is None,
        receipt matches Receipt::Accepted(status) ==> receipt.status() == Some(status@)
            && receipt.error() is None && (receipt.goes_by_status() <==> status@ / 100 == 2),
        receipt matches Receipt::Refused(status, error) ==> receipt.status() == Some(status@)
            && receipt.error() == error && (receipt.goes_by_status() <==> status@ / 100 != 2),
        receipt is NotSent ==> receipt.status() is None && receipt.error() is None,
{
}

} // verus!

//! What can go wrong, and how it is worded.

use vstd::prelude::*;
use vstd::string::StringExecFns;

verus! {

/// The failures that the library itself tells apart.
#[derive(Debug)]
pub enum LambdaError {
    ApiKeyNotSet,
    ApiKeyCommandFailed(String),
    InstanceTypeNotFound(String),
    NoRegionsAvailable(String),
    NoInstanceIds,
    ApiError(String),
    SshKeyRequired,
}

/// A `LambdaError`, with texts for strings.
pub enum LambdaErrorView {
    ApiKeyNotSet,
    ApiKeyCommandFailed(Seq<char>),
    InstanceTypeNotFound(Seq<char>),
    NoRegionsAvailable(Seq<char>),
    NoInstanceIds,
    ApiError(Seq<char>),
    SshKeyRequired,
}

impl View for LambdaError {
    type V = LambdaErrorView;

    open spec fn view(&self) -> LambdaErrorView {
        match self {
            LambdaError::ApiKeyNotSet => LambdaErrorView::ApiKeyNotSet,
            LambdaError::ApiKeyCommandFailed(why) => LambdaErrorView::ApiKeyCommandFailed(why@),
            LambdaError::InstanceTypeNotFound(gpu) => LambdaErrorView::InstanceTypeNotFound(gpu@),
            LambdaError::NoRegionsAvailable(gpu) => LambdaErrorView::NoRegionsAvailable(gpu@),
            LambdaError::NoInstanceIds => LambdaErrorView::NoInstanceIds,
            LambdaError::ApiError(why) => LambdaErrorView::ApiError(why@),
            LambdaError::SshKeyRequired => LambdaErrorView::SshKeyRequired,
        }
    }
}

impl LambdaErrorView {
    /// The sentence that a user reads.
    pub open spec fn message(self) -> Seq<char> {
        match self {
            LambdaErrorView::ApiKeyNotSet =>
            "API key not set. Set LAMBDA_API_KEY or LAMBDA_API_KEY_COMMAND environment variable"@,
            LambdaErrorView::ApiKeyCommandFailed(why) => "Failed to execute API key command: "@
                + why,
            LambdaErrorView::InstanceTypeNotFound(gpu) => "Instance type '"@ + gpu
                + "' not found"@,
            LambdaErrorView::NoRegionsAvailable(gpu) =>
            "No regions available for instance type '"@ + gpu + "'"@,
            LambdaErrorView::NoInstanceIds => "No instance IDs returned from launch request"@,
            LambdaErrorView::ApiError(why) => "API request failed: "@ + why,
            LambdaErrorView::SshKeyRequired => "SSH key is required for this operation"@,
        }
    }
}

impl LambdaError {
    /// The sentence that a user reads.
    pub fn to_string(&self) -> (message: String)
        ensures
            message@ == self@.message(),
    {
        match self {
            LambdaError::ApiKeyNotSet =>
            "API key not set. Set LAMBDA_API_KEY or LAMBDA_API_KEY_COMMAND environment variable".to_owned(),
            LambdaError::ApiKeyCommandFailed(
                why,
            ) => "Failed to execute API key command: ".to_owned().concat(why.as_str()),
            LambdaError::InstanceTypeNotFound(gpu) => "Instance type '".to_owned().concat(
                gpu.as_str(),
            ).concat("' not found"),
            LambdaError::NoRegionsAvailable(
                gpu,
            ) => "No regions available for instance type '".to_owned().concat(gpu.as_str()).concat(
                "'",
            ),
            LambdaError::NoInstanceIds =>
            "No instance IDs returned from launch request".to_owned(),
            LambdaError::ApiError(why) => "API request failed: ".to_owned().concat(why.as_str()),
            LambdaError::SshKeyRequired => "SSH key is required for this operation".to_owned(),
        }
    }
}

/// How a call on the service fails. `E` is the error of the transport, which is passed on as it
/// came.
#[derive(Debug)]
pub enum ClientError<E> {
    /// One of the failures that the library tells apart.
    Lambda(LambdaError),
    /// A failure that is only worded.
    Message(String),
    /// A failure of the transport, and what was being done when it failed.
    Context(String, E),
}

/// A `ClientError`, with texts for strings.
pub enum ClientErrorView<E> {
    Lambda(LambdaErrorView),
    Message(Seq<char>),
    Context(Seq<char>, E),
}

impl<E> View for ClientError<E> {
    type V = ClientErrorView<E>;

    open spec fn view(&self) -> ClientErrorView<E> {
        match self {
            ClientError::Lambda(error) => ClientErrorView::Lambda(error@),
            ClientError::Message(text) => ClientErrorView::Message(text@),
            ClientError::Context(text, cause) => ClientErrorView::Context(text@, *cause),
        }
    }
}

impl<E> ClientErrorView<E> {
    /// The sentence that a user reads first.
    pub open spec fn message(self) -> Seq<char> {
        match self {
            ClientErrorView::Lambda(error) => error.message(),
            ClientErrorView::Message(text) => text,
            ClientErrorView::Context(text, _) => text,
        }
    }
}

impl<E> ClientError<E> {
    /// The sentence that a user reads first.
    pub fn to_string(&self) -> (message: String)
        ensures
            message@ == self@.message(),
    {
        match self {
            ClientError::Lambda(error) => error.to_string(),
            ClientError::Message(text) => text.clone(),
            ClientError::Context(text, _) => text.clone(),
        }
    }
}

/// What a result says, with the answer seen through `seen`.
pub open spec fn result_view<R, V, E>(
    result: Result<R, ClientError<E>>,
    seen: spec_fn(R) -> V,
) -> Result<V, ClientErrorView<E>> {
    match result {
        Ok(answer) => Ok(seen(answer)),
        Err(error) => Err(error@),
    }
}

/// An error is seen with all that it holds, and each kind as itself.
pub proof fn law_error_views_lose_nothing<E>(text: String, error: LambdaError, cause: E)
    ensures
        LambdaError::ApiKeyNotSet@ == LambdaErrorView::ApiKeyNotSet,
        LambdaError::ApiKeyCommandFailed(text)@ == LambdaErrorView::ApiKeyCommandFailed(text@),
        LambdaError::InstanceTypeNotFound(text)@ == LambdaErrorView::InstanceTypeNotFound(text@),
        LambdaError::NoRegionsAvailable(text)@ == LambdaErrorView::NoRegionsAvailable(text@),
        LambdaError::NoInstanceIds@ == LambdaErrorView::NoInstanceIds,
        LambdaError::ApiError(text)@ == LambdaErrorView::ApiError(text@),
        LambdaError::SshKeyRequired@ == LambdaErrorView::SshKeyRequired,
        ClientError::<E>::Lambda(error)@ == ClientErrorView::<E>::Lambda(error@),
        ClientError::<E>::Message(text)@ == ClientErrorView::<E>::Message(text@),
        ClientError::Context(text, cause)@ == ClientErrorView::Context(text@, cause),
{
}

/// A result is seen with its answer, or with its error.
pub proof fn law_result_views_lose_nothing<R, E>(answer: R, error: ClientError<E>)
    ensures
        result_view(Ok::<R, ClientError<E>>(answer), |seen: R| seen) == Ok::<R, ClientErrorView<E>>(
            answer,
        ),
        result_view(Err::<R, ClientError<E>>(error), |seen: R| seen) == Err::<
            R,
            ClientErrorView<E>,
        >(error@),
{
}

/// The sentence of an error quotes what the error is about, whatever that is, between words that
/// tell the kinds apart.
pub proof fn law_messages_quote_what_they_are_about<E>(about: Seq<char>, cause: E)
    ensures
        LambdaErrorView::ApiKeyNotSet.message()
            == "API key not set. Set LAMBDA_API_KEY or LAMBDA_API_KEY_COMMAND environment variable"@,
        LambdaErrorView::ApiKeyCommandFailed(about).message()
            == "Failed to execute API key command: "@ + about,
        LambdaErrorView::InstanceTypeNotFound(about).message() == "Instance type '"@ + about
            + "' not found"@,
        LambdaErrorView::NoRegionsAvailable(about).message()
            == "No regions available for instance type '"@ + about + "'"@,
        LambdaErrorView::NoInstanceIds.message()
            == "No instance IDs returned from launch request"@,
        LambdaErrorView::ApiError(about).message() == "API request failed: "@ + about,
        LambdaErrorView::SshKeyRequired.message() == "SSH key is required for this operation"@,
        ClientErrorView::<E>::Message(about).message() == about,
        ClientErrorView::Context(about, cause).message() == about,
        ClientErrorView::<E>::Lambda(LambdaErrorView::InstanceTypeNotFound(about)).message()
            == "Instance type '"@ + about + "' not found"@,
        forall|error: LambdaErrorView| #[trigger]
            ClientErrorView::<E>::Lambda(error).message() == error.message(),
{
}

} // verus!

//! A client library for the Lambda Cloud API.
//!
//! The library decides and the caller acts. For each call on the service the [`LambdaClient`] says
//! which request to send, when the command for the API key has to be run, and what the answer
//! comes to; sending the request and running the command is left to the caller. Around the calls
//! stand the rules on machine images ([`resolve_image_family`], [`summarize_image_families`]), on
//! instance types ([`InstanceTypes`]) and on the API key.

pub mod behavior;
pub mod catalog;
pub mod client;
pub mod conversation;
pub mod error;
pub mod http;
pub mod images;
pub mod json;
pub mod key;
pub mod laws;
pub mod model;
pub mod payload;
pub mod text;

pub use catalog::InstanceTypes;
pub use client::{
    choose_region, Action, EnvEvent, EnvStep, Event, KeyStep, LambdaClient, LaunchEvent,
    LaunchStep, Step,
};
pub use error::{ClientError, LambdaError};
pub use http::{
    exchange_of, receipt_of, ApiRequest, Exchange, FailureStatus, HttpStatus, Method, Receipt,
    StatusClass, SuccessStatus, API_BASE_URL, CONNECT_TIMEOUT_SECS, DEFAULT_TIMEOUT_SECS,
};
pub use images::{resolve_image_family, summarize_image_families, DEFAULT_IMAGE_FAMILY};
pub use key::{shell_command, ApiKeySource, CommandOutcome, ShellCommand};
pub use model::{
    ApiErrorDetail, ApiErrorResponse, ApiResponse, Filesystem, FilesystemRegion, Image,
    ImageFamilySummary, ImageRegion, Instance, InstanceSpecs, InstanceType, InstanceTypeData,
    InstanceTypeInfo, InstanceTypeResponse, LaunchResponse, LaunchResult, Region, RegionInfo,
};

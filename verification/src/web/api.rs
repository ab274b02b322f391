//! Client for the management API: the requests, and what the replies mean.

use vstd::prelude::*;

use crate::domain::{Distribution, Rule, SegmentRule, ValidationIssue, Variant};
use crate::keyset::KeySet;
use crate::storage::error::{json_error_is_io, json_error_text, print_json_error};
use crate::text::{decimal, decimal_int, decimal_int_text, decimal_text, maybe_str, trim, trimmed};

pub mod models;

verus! {

/// Same origin as the dashboard, so there is no address to configure.
pub const BASE: &'static str = "/api/v1";

// ---------------------------------------------------------------------- error

#[derive(Debug, Clone)]
pub struct ApiError {
    pub status: u16,
    /// The server's stable `type` slug, or `network` when the request never
    /// arrived.
    pub kind: String,
    pub title: String,
    /// Field-level problems, present on `validation_failed`.
    pub issues: Vec<ValidationIssue>,
}

/// Whether an error says that the server could not be reached, and why.
pub open spec fn is_network(error: ApiError, detail: Seq<char>) -> bool {
    &&& error.status == 0
    &&& error.kind@ == "network"@
    &&& error.title@ == "could not reach the server: "@ + detail
    &&& error.issues@.len() == 0
}

impl ApiError {
    /// A request that never arrived, or an answer that made no sense.
    pub fn network(detail: &str) -> (error: ApiError)
        ensures
            is_network(error, detail@),
            error.status == 0,
            error.kind@ == "network"@,
            error.title@ == "could not reach the server: "@ + detail@,
            error.issues@.len() == 0,
    {
        let mut title: String = "could not reach the server: ".to_owned();
        title.append(detail);
        ApiError { status: 0, kind: "network".to_owned(), title, issues: Vec::new() }
    }

    /// Whether the session is gone and the user has to sign in again.
    pub fn is_unauthorized(&self) -> (yes: bool)
        ensures
            yes == (self.status == 401),
    {
        self.status == 401
    }

    /// A write that lost against somebody else's. The dashboard recovers by
    /// reloading.
    pub fn is_conflict(&self) -> (yes: bool)
        ensures
            yes == (self.status == 409),
    {
        self.status == 409
    }
}

// ----------------------------------------------------------------- async state

/// What is known of something fetched over the network.
///
/// Loading and failure are states of their own, so that "not there yet",
/// "empty" and "something broke" are three different screens.
#[derive(Debug, Clone)]
pub enum Load<T> {
    Loading,
    Ready(T),
    Failed(ApiError),
}

impl<T> From<Result<T, ApiError>> for Load<T> {
    fn from(result: Result<T, ApiError>) -> (load: Self) {
        match result {
            Ok(value) => Load::Ready(value),
            Err(error) => Load::Failed(error),
        }
    }
}

impl<T> vstd::std_specs::convert::FromSpecImpl<Result<T, ApiError>> for Load<T> {
    open spec fn obeys_from_spec() -> bool {
        true
    }

    open spec fn from_spec(result: Result<T, ApiError>) -> Self {
        loaded(result)
    }
}

/// What an answer makes of something being fetched.
pub open spec fn loaded<T>(result: Result<T, ApiError>) -> Load<T> {
    match result {
        Ok(value) => Load::Ready(value),
        Err(error) => Load::Failed(error),
    }
}

// -------------------------------------------------------------------- requests

#[derive(Debug)]
pub struct RegisterBody<'a> {
    pub organization_name: &'a str,
    pub email: &'a str,
    pub password: &'a str,
}

#[derive(Debug)]
pub struct LoginBody<'a> {
    pub email: &'a str,
    pub password: &'a str,
}

#[derive(Debug)]
pub struct NewProject<'a> {
    pub key: &'a str,
    pub name: &'a str,
    pub description: Option<&'a str>,
}

#[derive(Debug)]
pub struct NewEnvironment<'a> {
    pub key: &'a str,
    pub name: &'a str,
    pub is_production: bool,
}

#[derive(Debug)]
pub struct NewFlag<'a> {
    pub key: &'a str,
    pub name: &'a str,
    pub description: Option<&'a str>,
    pub variants: Option<Vec<Variant>>,
    pub off_variant: Option<String>,
    pub fallthrough: Option<Distribution>,
}

#[derive(Debug)]
pub struct ConfigBody {
    pub enabled: bool,
    pub off_variant: String,
    pub fallthrough: Distribution,
    pub rules: Vec<Rule>,
    /// Always sent: two people editing the same flag get a clear conflict
    /// instead of a silent overwrite.
    pub expected_version: i64,
}

#[derive(Debug)]
pub struct NewSegment<'a> {
    pub key: &'a str,
    pub name: &'a str,
    pub description: Option<&'a str>,
}

/// A full rewrite of a segment's membership.
#[derive(Debug)]
pub struct SegmentBody {
    pub name: String,
    pub included: KeySet,
    pub excluded: KeySet,
    pub rules: Vec<SegmentRule>,
    /// Always sent: one segment edit moves every flag that references it.
    pub expected_version: i64,
}

#[derive(Debug)]
pub struct NewExperiment<'a> {
    pub key: &'a str,
    pub name: &'a str,
    pub description: Option<&'a str>,
    pub flag_key: &'a str,
    pub metric_key: &'a str,
    pub control_variant: &'a str,
}

#[derive(Debug)]
pub struct NewKey<'a> {
    pub name: &'a str,
    pub scope: &'a str,
}

#[derive(Debug)]
pub struct ArchiveBody {
    pub archived: bool,
}

// ---------------------------------------------------------------------- client

#[derive(Debug, Clone, Copy, PartialEq, Eq, Structural)]
pub enum Method {
    Get,
    Post,
    Put,
    Patch,
    Delete,
}

/// What a request carries.
#[derive(Debug)]
pub enum Body<'a> {
    Nothing,
    /// A JSON `null`.
    Null,
    Register(RegisterBody<'a>),
    Login(LoginBody<'a>),
    Project(NewProject<'a>),
    Environment(NewEnvironment<'a>),
    Flag(NewFlag<'a>),
    Archive(ArchiveBody),
    Config(ConfigBody),
    Segment(NewSegment<'a>),
    Membership(SegmentBody),
    Experiment(NewExperiment<'a>),
    Key(NewKey<'a>),
}

/// A request to make.
#[derive(Debug)]
pub struct Call<'a> {
    pub method: Method,
    pub path: String,
    pub token: Option<&'a str>,
    pub body: Body<'a>,
}

impl<'a> Call<'a> {
    /// Whether this is a given request, but for what it carries.
    pub open spec fn is(self, method: Method, path: Seq<char>, token: Option<Seq<char>>) -> bool {
        &&& self.method == method
        &&& self.path@ == path
        &&& maybe_str(self.token) == token
    }

    /// Where the request goes.
    pub fn url(&self) -> (url: String)
        ensures
            url@ == BASE@ + self.path@,
            url@ == "/api/v1"@ + self.path@,
    {
        let mut url: String = BASE.to_owned();
        url.append(self.path.as_str());
        url
    }

    /// The header that says on whose behalf, for all but signing in.
    pub fn authorization(&self) -> (header: Option<String>)
        ensures
            match self.token {
                Some(token) => header matches Some(text) && text@ == "Bearer "@ + token@,
                None => header is None,
            },
    {
        match self.token {
            Some(token) => {
                let mut header: String = "Bearer ".to_owned();
                header.append(token);
                Some(header)
            },
            None => None,
        }
    }
}

// ---------------------------------------------------------------------- replies

/// The JSON document a text holds.
pub uninterp spec fn json_document(text: Seq<char>) -> Option<serde_json::Value>;

/// The text a JSON document has under a name.
pub uninterp spec fn text_member(document: serde_json::Value, name: Seq<char>) -> Option<Seq<char>>;

/// Calls `serde_json::from_str`: the document in a text, or nothing where the
/// text is not JSON. The result is a function of the text alone.
#[verifier::external_body]
fn parse_json(text: &str) -> (document: Option<serde_json::Value>)
    ensures
        document == json_document(text@),
{
    serde_json::from_str(text).ok()
}

/// Calls `serde_json::Value`'s index by name and then `as_str`: the text under a
/// name, or nothing where the document is no object, lacks the name, or has
/// something other than a text there. The result is a function of the document
/// and the name alone.
#[verifier::external_body]
fn read_member(document: &serde_json::Value, name: &str) -> (text: Option<String>)
    ensures
        match text {
            Some(t) => text_member(*document, name@) == Some(t@),
            None => text_member(*document, name@) is None,
        },
{
    document[name].as_str().map(str::to_owned)
}

/// The text a problem document has under a name, or a stand-in where there is no
/// such document or it has no such text.
pub open spec fn problem_text(
    document: Option<serde_json::Value>,
    name: Seq<char>,
    otherwise: Seq<char>,
) -> Seq<char> {
    match document {
        Some(document) => match text_member(document, name) {
            Some(text) => text,
            None => otherwise,
        },
        None => otherwise,
    }
}

fn read_problem(document: &Option<serde_json::Value>, name: &str, otherwise: &str) -> (text: String)
    ensures
        text@ == problem_text(*document, name@, otherwise@),
{
    match document {
        Some(document) => match read_member(document, name) {
            Some(text) => text,
            None => otherwise.to_owned(),
        },
        None => otherwise.to_owned(),
    }
}

/// The field-level problems of a problem document, where `errors` is what its
/// member of that name decoded to: none where there is no document, or nothing
/// was decoded.
pub open spec fn field_problems(
    document: Option<serde_json::Value>,
    errors: Option<Vec<ValidationIssue>>,
) -> Seq<ValidationIssue> {
    match (document, errors) {
        (Some(_), Some(issues)) => issues@,
        _ => Seq::empty(),
    }
}

/// Whether an error is what the server's problem document says.
pub open spec fn is_problem(
    error: ApiError,
    status: u16,
    document: Option<serde_json::Value>,
    errors: Option<Vec<ValidationIssue>>,
) -> bool {
    &&& error.status == status
    &&& error.kind@ == problem_text(document, "type"@, "unexpected"@)
    &&& error.title@ == problem_text(document, "title"@, "the request failed"@)
    &&& error.issues@ == field_problems(document, errors)
}

/// The error in a problem document; `errors` is what its member of that name
/// decoded to.
///
/// A body that is no such document means that something in front of the server
/// answered, so the status has to do.
pub fn problem(
    status: u16,
    document: Option<serde_json::Value>,
    errors: Option<Vec<ValidationIssue>>,
) -> (error: ApiError)
    ensures
        is_problem(error, status, document, errors),
{
    let kind = read_problem(&document, "type", "unexpected");
    let title = read_problem(&document, "title", "the request failed");
    let issues: Vec<ValidationIssue> = match (document, errors) {
        (Some(_), Some(issues)) => issues,
        _ => Vec::new(),
    };
    ApiError { status, kind, title, issues }
}

/// What to decode after a success: an empty body stands for `null`.
pub open spec fn payload(text: Seq<char>) -> Seq<char> {
    if trimmed(text).len() == 0 {
        "null"@
    } else {
        text
    }
}

/// What a reply comes to: the text to decode, or the error. `errors` is what the
/// member of that name decoded to, where the body is a document that has one; of
/// a body that is no document it counts for nothing.
pub fn receive(status: u16, text: String, errors: Option<Vec<ValidationIssue>>) -> (outcome: Result<
    String,
    ApiError,
>)
    ensures
        match outcome {
            Ok(decodable) => 200 <= status < 300 && decodable@ == payload(text@) && decodable@ == (
            if trimmed(text@).len() == 0 {
                "null"@
            } else {
                text@
            }),
            Err(error) => !(200 <= status < 300) && is_problem(
                error,
                status,
                json_document(text@),
                errors,
            ) && (json_document(text@) is None ==> error.issues@.len() == 0),
        },
{
    if status < 200 || status >= 300 {
        return Err(problem(status, parse_json(text.as_str()), errors));
    }
    if trim(text.as_str()).as_str().unicode_len() == 0 {
        Ok("null".to_owned())
    } else {
        Ok(text)
    }
}

/// Whether an error says that a reply has the wrong shape, and why.
pub open spec fn is_misshapen(error: ApiError, printed: Seq<char>) -> bool {
    is_network(error, "unexpected response shape: "@ + printed)
}

/// Whether an error says that a reply has the wrong shape, as the decoder's error
/// puts it.
pub open spec fn reports_shape(reported: ApiError, error: serde_json::Error) -> bool {
    exists|printed: Seq<char>|
        {
            &&& #[trigger] is_misshapen(reported, printed)
            &&& !json_error_is_io(error) ==> printed == json_error_text(error)
        }
}

/// A reply that does not decode, where the decoder's error prints `printed`.
pub fn misshapen(printed: &str) -> (error: ApiError)
    ensures
        is_misshapen(error, printed@),
        error.status == 0,
        error.kind@ == "network"@,
        error.title@ == "could not reach the server: "@ + ("unexpected response shape: "@
            + printed@),
        error.issues@.len() == 0,
{
    let mut detail: String = "unexpected response shape: ".to_owned();
    detail.append(printed);
    ApiError::network(detail.as_str())
}

/// What a decoded reply comes to.
pub fn decode<T>(outcome: Result<T, serde_json::Error>) -> (value: Result<T, ApiError>)
    ensures
        match outcome {
            Ok(decoded) => value == Ok::<T, ApiError>(decoded),
            Err(error) => value matches Err(reported) && reports_shape(reported, error),
        },
{
    match outcome {
        Ok(decoded) => Ok(decoded),
        Err(error) => {
            let printed = print_json_error(&error);
            let reported = misshapen(printed.as_str());
            assert(is_misshapen(reported, printed@));
            Err(reported)
        },
    }
}

// ----------------------------------------------------------------------- paths

/// The path of a project.
pub open spec fn project_path(project: Seq<char>) -> Seq<char> {
    "/projects/"@ + project
}

/// The path of a flag's definition.
pub open spec fn flag_path(project: Seq<char>, flag: Seq<char>) -> Seq<char> {
    project_path(project) + "/flags/"@ + flag
}

/// The path of an environment, with a slash and a kind of resource behind it.
pub open spec fn environment_path(
    project: Seq<char>,
    environment: Seq<char>,
    resources: Seq<char>,
) -> Seq<char> {
    project_path(project) + "/environments/"@ + environment + resources
}

/// The path of one resource of an environment.
pub open spec fn resource_path(
    project: Seq<char>,
    environment: Seq<char>,
    resources: Seq<char>,
    resource: Seq<char>,
) -> Seq<char> {
    environment_path(project, environment, resources) + "/"@ + resource
}

/// The path of a page of the audit log.
pub open spec fn audit_path(limit: nat, before: Option<i64>) -> Seq<char> {
    "/audit?limit="@ + decimal(limit) + match before {
        Some(cursor) => "&before_id="@ + decimal_int(cursor as int),
        None => Seq::empty(),
    }
}

fn to_project(project: &str, rest: &str) -> (path: String)
    ensures
        path@ == project_path(project@) + rest@,
{
    let mut path: String = "/projects/".to_owned();
    path.append(project);
    path.append(rest);
    path
}

fn to_flag(project: &str, flag: &str) -> (path: String)
    ensures
        path@ == flag_path(project@, flag@),
{
    let mut path = to_project(project, "/flags/");
    path.append(flag);
    path
}

fn to_environment(project: &str, environment: &str, resources: &str) -> (path: String)
    ensures
        path@ == environment_path(project@, environment@, resources@),
{
    let mut path = to_project(project, "/environments/");
    path.append(environment);
    path.append(resources);
    path
}

fn to_resource(project: &str, environment: &str, resources: &str, resource: &str) -> (path: String)
    ensures
        path@ == resource_path(project@, environment@, resources@, resource@),
{
    let mut path = to_environment(project, environment, resources);
    path.append("/");
    path.append(resource);
    path
}

// ----------------------------------------------------------------------- calls

/// Registers an organization and its owner.
pub fn register<'a>(body: RegisterBody<'a>) -> (call: Call<'a>)
    ensures
        call.is(Method::Post, "/auth/register"@, None),
        call.body == Body::Register(body),
{
    Call {
        method: Method::Post,
        path: "/auth/register".to_owned(),
        token: None,
        body: Body::Register(body),
    }
}

/// Signs in.
pub fn login<'a>(body: LoginBody<'a>) -> (call: Call<'a>)
    ensures
        call.is(Method::Post, "/auth/login"@, None),
        call.body == Body::Login(body),
{
    Call {
        method: Method::Post,
        path: "/auth/login".to_owned(),
        token: None,
        body: Body::Login(body),
    }
}

/// Asks who is signed in.
pub fn me<'a>(token: &'a str) -> (call: Call<'a>)
    ensures
        call.is(Method::Get, "/auth/me"@, Some(token@)),
        call.body == Body::Nothing,
{
    Call {
        method: Method::Get,
        path: "/auth/me".to_owned(),
        token: Some(token),
        body: Body::Nothing,
    }
}

/// Asks for the projects of the organization.
pub fn list_projects<'a>(token: &'a str) -> (call: Call<'a>)
    ensures
        call.is(Method::Get, "/projects"@, Some(token@)),
        call.body == Body::Nothing,
{
    Call {
        method: Method::Get,
        path: "/projects".to_owned(),
        token: Some(token),
        body: Body::Nothing,
    }
}

/// Creates a project.
pub fn create_project<'a>(token: &'a str, body: NewProject<'a>) -> (call: Call<'a>)
    ensures
        call.is(Method::Post, "/projects"@, Some(token@)),
        call.body == Body::Project(body),
{
    Call {
        method: Method::Post,
        path: "/projects".to_owned(),
        token: Some(token),
        body: Body::Project(body),
    }
}

/// Deletes a project.
pub fn delete_project<'a>(token: &'a str, key: &str) -> (call: Call<'a>)
    ensures
        call.is(Method::Delete, project_path(key@), Some(token@)),
        call.body == Body::Nothing,
{
    let mut path: String = "/projects/".to_owned();
    path.append(key);
    Call { method: Method::Delete, path, token: Some(token), body: Body::Nothing }
}

/// Asks for the environments of a project.
pub fn list_environments<'a>(token: &'a str, project: &str) -> (call: Call<'a>)
    ensures
        call.is(Method::Get, project_path(project@) + "/environments"@, Some(token@)),
        call.body == Body::Nothing,
{
    Call {
        method: Method::Get,
        path: to_project(project, "/environments"),
        token: Some(token),
        body: Body::Nothing,
    }
}

/// Creates an environment.
pub fn create_environment<'a>(
    token: &'a str,
    project: &str,
    body: NewEnvironment<'a>,
) -> (call: Call<'a>)
    ensures
        call.is(Method::Post, project_path(project@) + "/environments"@, Some(token@)),
        call.body == Body::Environment(body),
{
    Call {
        method: Method::Post,
        path: to_project(project, "/environments"),
        token: Some(token),
        body: Body::Environment(body),
    }
}

/// Creates a flag.
pub fn create_flag<'a>(token: &'a str, project: &str, body: NewFlag<'a>) -> (call: Call<'a>)
    ensures
        call.is(Method::Post, project_path(project@) + "/flags"@, Some(token@)),
        call.body == Body::Flag(body),
{
    Call {
        method: Method::Post,
        path: to_project(project, "/flags"),
        token: Some(token),
        body: Body::Flag(body),
    }
}

/// Asks for a flag's definition.
pub fn get_flag<'a>(token: &'a str, project: &str, flag: &str) -> (call: Call<'a>)
    ensures
        call.is(Method::Get, flag_path(project@, flag@), Some(token@)),
        call.body == Body::Nothing,
{
    Call {
        method: Method::Get,
        path: to_flag(project, flag),
        token: Some(token),
        body: Body::Nothing,
    }
}

/// Archives a flag, or brings it back.
pub fn archive_flag<'a>(token: &'a str, project: &str, flag: &str, archived: bool) -> (call: Call<
    'a,
>)
    ensures
        call.is(Method::Patch, flag_path(project@, flag@), Some(token@)),
        call.body == Body::Archive(ArchiveBody { archived }),
{
    Call {
        method: Method::Patch,
        path: to_flag(project, flag),
        token: Some(token),
        body: Body::Archive(ArchiveBody { archived }),
    }
}

/// Deletes a flag.
pub fn delete_flag<'a>(token: &'a str, project: &str, flag: &str) -> (call: Call<'a>)
    ensures
        call.is(Method::Delete, flag_path(project@, flag@), Some(token@)),
        call.body == Body::Nothing,
{
    Call {
        method: Method::Delete,
        path: to_flag(project, flag),
        token: Some(token),
        body: Body::Nothing,
    }
}

/// Asks for every flag of the project with its configuration here.
pub fn list_configured<'a>(token: &'a str, project: &str, environment: &str) -> (call: Call<'a>)
    ensures
        call.is(Method::Get, environment_path(project@, environment@, "/flags"@), Some(token@)),
        call.body == Body::Nothing,
{
    Call {
        method: Method::Get,
        path: to_environment(project, environment, "/flags"),
        token: Some(token),
        body: Body::Nothing,
    }
}

/// Asks for a flag's configuration.
pub fn get_config<'a>(
    token: &'a str,
    project: &str,
    environment: &str,
    flag: &str,
) -> (call: Call<'a>)
    ensures
        call.is(Method::Get, resource_path(project@, environment@, "/flags"@, flag@), Some(token@)),
        call.body == Body::Nothing,
{
    Call {
        method: Method::Get,
        path: to_resource(project, environment, "/flags", flag),
        token: Some(token),
        body: Body::Nothing,
    }
}

/// Rewrites a flag's configuration.
pub fn put_config<'a>(
    token: &'a str,
    project: &str,
    environment: &str,
    flag: &str,
    body: ConfigBody,
) -> (call: Call<'a>)
    ensures
        call.is(Method::Put, resource_path(project@, environment@, "/flags"@, flag@), Some(token@)),
        call.body == Body::Config(body),
{
    Call {
        method: Method::Put,
        path: to_resource(project, environment, "/flags", flag),
        token: Some(token),
        body: Body::Config(body),
    }
}

/// Asks for the segments of an environment.
pub fn list_segments<'a>(token: &'a str, project: &str, environment: &str) -> (call: Call<'a>)
    ensures
        call.is(Method::Get, environment_path(project@, environment@, "/segments"@), Some(token@)),
        call.body == Body::Nothing,
{
    Call {
        method: Method::Get,
        path: to_environment(project, environment, "/segments"),
        token: Some(token),
        body: Body::Nothing,
    }
}

/// Asks for a segment and the flags that reference it.
pub fn get_segment<'a>(
    token: &'a str,
    project: &str,
    environment: &str,
    segment: &str,
) -> (call: Call<'a>)
    ensures
        call.is(Method::Get, resource_path(project@, environment@, "/segments"@, segment@), Some(token@)),
        call.body == Body::Nothing,
{
    Call {
        method: Method::Get,
        path: to_resource(project, environment, "/segments", segment),
        token: Some(token),
        body: Body::Nothing,
    }
}

/// Creates a segment.
pub fn create_segment<'a>(
    token: &'a str,
    project: &str,
    environment: &str,
    body: NewSegment<'a>,
) -> (call: Call<'a>)
    ensures
        call.is(Method::Post, environment_path(project@, environment@, "/segments"@), Some(token@)),
        call.body == Body::Segment(body),
{
    Call {
        method: Method::Post,
        path: to_environment(project, environment, "/segments"),
        token: Some(token),
        body: Body::Segment(body),
    }
}

/// Rewrites a segment's membership.
pub fn put_segment<'a>(
    token: &'a str,
    project: &str,
    environment: &str,
    segment: &str,
    body: SegmentBody,
) -> (call: Call<'a>)
    ensures
        call.is(Method::Put, resource_path(project@, environment@, "/segments"@, segment@), Some(token@)),
        call.body == Body::Membership(body),
{
    Call {
        method: Method::Put,
        path: to_resource(project, environment, "/segments", segment),
        token: Some(token),
        body: Body::Membership(body),
    }
}

/// Deletes a segment.
pub fn delete_segment<'a>(
    token: &'a str,
    project: &str,
    environment: &str,
    segment: &str,
) -> (call: Call<'a>)
    ensures
        call.is(Method::Delete, resource_path(project@, environment@, "/segments"@, segment@), Some(token@)),
        call.body == Body::Nothing,
{
    Call {
        method: Method::Delete,
        path: to_resource(project, environment, "/segments", segment),
        token: Some(token),
        body: Body::Nothing,
    }
}

/// Asks for the experiments of an environment.
pub fn list_experiments<'a>(token: &'a str, project: &str, environment: &str) -> (call: Call<'a>)
    ensures
        call.is(Method::Get, environment_path(project@, environment@, "/experiments"@), Some(token@)),
        call.body == Body::Nothing,
{
    Call {
        method: Method::Get,
        path: to_environment(project, environment, "/experiments"),
        token: Some(token),
        body: Body::Nothing,
    }
}

/// Creates an experiment.
pub fn create_experiment<'a>(
    token: &'a str,
    project: &str,
    environment: &str,
    body: NewExperiment<'a>,
) -> (call: Call<'a>)
    ensures
        call.is(Method::Post, environment_path(project@, environment@, "/experiments"@), Some(token@)),
        call.body == Body::Experiment(body),
{
    Call {
        method: Method::Post,
        path: to_environment(project, environment, "/experiments"),
        token: Some(token),
        body: Body::Experiment(body),
    }
}

/// Starts or stops an experiment; `action` is `start` or `stop`.
pub fn transition_experiment<'a>(
    token: &'a str,
    project: &str,
    environment: &str,
    experiment: &str,
    action: &str,
) -> (call: Call<'a>)
    ensures
        call.is(
            Method::Post,
            resource_path(project@, environment@, "/experiments"@, experiment@) + "/"@ + action@,
            Some(token@),
        ),
        call.body == Body::Null,
{
    let mut path = to_resource(project, environment, "/experiments", experiment);
    path.append("/");
    path.append(action);
    Call { method: Method::Post, path, token: Some(token), body: Body::Null }
}

/// Asks for the judged results of an experiment.
pub fn experiment_results<'a>(
    token: &'a str,
    project: &str,
    environment: &str,
    experiment: &str,
) -> (call: Call<'a>)
    ensures
        call.is(
            Method::Get,
            resource_path(project@, environment@, "/experiments"@, experiment@) + "/results"@,
            Some(token@),
        ),
        call.body == Body::Nothing,
{
    let mut path = to_resource(project, environment, "/experiments", experiment);
    path.append("/results");
    Call { method: Method::Get, path, token: Some(token), body: Body::Nothing }
}

/// Deletes an experiment.
pub fn delete_experiment<'a>(
    token: &'a str,
    project: &str,
    environment: &str,
    experiment: &str,
) -> (call: Call<'a>)
    ensures
        call.is(Method::Delete, resource_path(project@, environment@, "/experiments"@, experiment@), Some(token@)),
        call.body == Body::Nothing,
{
    Call {
        method: Method::Delete,
        path: to_resource(project, environment, "/experiments", experiment),
        token: Some(token),
        body: Body::Nothing,
    }
}

/// Asks for the keys of an environment.
pub fn list_keys<'a>(token: &'a str, project: &str, environment: &str) -> (call: Call<'a>)
    ensures
        call.is(Method::Get, environment_path(project@, environment@, "/keys"@), Some(token@)),
        call.body == Body::Nothing,
{
    Call {
        method: Method::Get,
        path: to_environment(project, environment, "/keys"),
        token: Some(token),
        body: Body::Nothing,
    }
}

/// Creates a key.
pub fn create_key<'a>(
    token: &'a str,
    project: &str,
    environment: &str,
    body: NewKey<'a>,
) -> (call: Call<'a>)
    ensures
        call.is(Method::Post, environment_path(project@, environment@, "/keys"@), Some(token@)),
        call.body == Body::Key(body),
{
    Call {
        method: Method::Post,
        path: to_environment(project, environment, "/keys"),
        token: Some(token),
        body: Body::Key(body),
    }
}

/// Revokes a key.
pub fn revoke_key<'a>(
    token: &'a str,
    project: &str,
    environment: &str,
    id: &str,
) -> (call: Call<'a>)
    ensures
        call.is(Method::Delete, resource_path(project@, environment@, "/keys"@, id@), Some(token@)),
        call.body == Body::Nothing,
{
    Call {
        method: Method::Delete,
        path: to_resource(project, environment, "/keys", id),
        token: Some(token),
        body: Body::Nothing,
    }
}

/// Asks for a page of the audit log: the newest entries, or those before a
/// cursor.
pub fn audit<'a>(token: &'a str, limit: u32, before: Option<i64>) -> (call: Call<'a>)
    ensures
        call.is(Method::Get, audit_path(limit as nat, before), Some(token@)),
        call.body == Body::Nothing,
{
    let mut path: String = "/audit?limit=".to_owned();
    path.append(decimal_text(limit as u64).as_str());
    if let Some(cursor) = before {
        path.append("&before_id=");
        path.append(decimal_int_text(cursor).as_str());
    }
    assert(path@ =~= audit_path(limit as nat, before));
    Call { method: Method::Get, path, token: Some(token), body: Body::Nothing }
}

// ------------------------------------------------------------------ the meaning

/// An answer is there or failed, as it came.
pub proof fn an_answer_is_kept_as_it_came<T>(answer: Result<T, ApiError>)
    ensures
        answer matches Ok(value) ==> loaded(answer) == Load::Ready(value),
        answer matches Err(error) ==> loaded(answer) == Load::<T>::Failed(error),
{
}

/// A request is the one it is said to be: method, path and on whose behalf.
pub proof fn a_request_is_what_it_is_said_to_be(
    call: Call<'_>,
    method: Method,
    path: Seq<char>,
    token: Option<Seq<char>>,
)
    requires
        call.is(method, path, token),
    ensures
        call.method == method,
        call.path@ == path,
        call.token is Some <==> token is Some,
        call.token is Some ==> call.token->0@ == token->0,
{
}

/// Where requests go: the project, the flag, the environment and the resource each
/// stand behind their own word.
pub proof fn paths_name_what_they_lead_to(
    project: Seq<char>,
    environment: Seq<char>,
    resources: Seq<char>,
    resource: Seq<char>,
    flag: Seq<char>,
    limit: nat,
    cursor: i64,
)
    ensures
        project_path(project) == "/projects/"@ + project,
        flag_path(project, flag) == "/projects/"@ + project + "/flags/"@ + flag,
        environment_path(project, environment, resources) == "/projects/"@ + project
            + "/environments/"@ + environment + resources,
        resource_path(project, environment, resources, resource) == "/projects/"@ + project
            + "/environments/"@ + environment + resources + "/"@ + resource,
        audit_path(limit, Some(cursor)) == "/audit?limit="@ + decimal(limit) + ("&before_id="@
            + decimal_int(cursor as int)),
        audit_path(limit, None) == "/audit?limit="@ + decimal(limit),
{
    assert(audit_path(limit, None) =~= "/audit?limit="@ + decimal(limit));
}

/// A refused request reports what the problem document says: its status, its type,
/// its title and its field-level problems, each with its stand-in where the
/// document lacks it.
pub proof fn a_refusal_reports_the_document(
    error: ApiError,
    status: u16,
    document: Option<serde_json::Value>,
    errors: Option<Vec<ValidationIssue>>,
)
    requires
        is_problem(error, status, document, errors),
    ensures
        error.status == status,
        error.kind@ == (if document is Some && text_member(document->0, "type"@) is Some {
            text_member(document->0, "type"@)->0
        } else {
            "unexpected"@
        }),
        error.title@ == (if document is Some && text_member(document->0, "title"@) is Some {
            text_member(document->0, "title"@)->0
        } else {
            "the request failed"@
        }),
        document is Some && errors is Some ==> error.issues@ == errors->0@,
        document is None || errors is None ==> error.issues@.len() == 0,
{
}

/// A reply that does not decode says so with the decoder's words.
pub proof fn a_misshapen_reply_says_why(reported: ApiError, error: serde_json::Error)
    requires
        reports_shape(reported, error),
    ensures
        reported.status == 0,
        reported.kind@ == "network"@,
        reported.issues@.len() == 0,
        !json_error_is_io(error) ==> reported.title@ == "could not reach the server: "@ + (
        "unexpected response shape: "@ + json_error_text(error)),
{
    let printed = choose|printed: Seq<char>|
        {
            &&& #[trigger] is_misshapen(reported, printed)
            &&& !json_error_is_io(error) ==> printed == json_error_text(error)
        };
    assert(is_misshapen(reported, printed));
}

} // verus!

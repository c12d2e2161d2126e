use vstd::prelude::*;
use vstd::string::*;

use crate::error::{WebServerError, WebServerErrorView};
use crate::text::{decimal, decimal_text};

verus! {

/// A failure to reach the ECS world from async code, as `bevy_defer::AccessError`
/// reports it, with each field as text: entities by their `{:?}` text, type and
/// query names as given. `ShouldNotHappen` and `Unrecognized` keep the error's
/// displayed text; `Unrecognized` stands for variants this library does not know.
#[derive(Clone, Debug)]
pub enum AccessFailure {
    EntityNotFound { entity: String },
    QueryConditionNotMet { entity: String, query: String },
    NoEntityFound { query: String },
    TooManyEntities { query: String },
    NamedChildNotFound,
    ChildNotFound { index: usize },
    TypedChildNotFound { query: String },
    TypedParentNotFound { query: String },
    ComponentNotFound { entity: String, name: String },
    ResourceNotFound { name: String },
    AssetNotFound { name: String },
    EventNotRegistered { name: String },
    DowncastFailed { name: String },
    ScheduleNotFound,
    SystemIdNotFound,
    NotInState { ty: String },
    Custom { message: String },
    TypedError { message: String, ty: String },
    ShouldNotHappen { text: String },
    Unrecognized { text: String },
}

fn text2(a: &str, b: &str) -> (r: String)
    ensures
        r@ == a@ + b@,
{
    String::from_str(a).concat(b)
}

fn text3(a: &str, b: &str, c: &str) -> (r: String)
    ensures
        r@ == a@ + b@ + c@,
{
    String::from_str(a).concat(b).concat(c)
}

fn text4(a: &str, b: &str, c: &str, d: &str) -> (r: String)
    ensures
        r@ == a@ + b@ + c@ + d@,
{
    String::from_str(a).concat(b).concat(c).concat(d)
}

fn owned(a: &str) -> (r: String)
    ensures
        r@ == a@,
{
    String::from_str(a)
}

/// How an access failure is reported: the error kind, and the two texts it carries.
pub open spec fn access_failure_report(f: AccessFailure) -> WebServerErrorView {
    match f {
        AccessFailure::EntityNotFound { entity } => WebServerErrorView::ResourceExhausted {
            resource_type: "entity"@,
            details: "entity "@ + entity@ + " not found"@,
        },
        AccessFailure::QueryConditionNotMet { entity, query } =>
            WebServerErrorView::ResourceExhausted {
            resource_type: "query"@,
            details: "query condition not met for entity "@ + entity@ + ": "@ + query@,
        },
        AccessFailure::NoEntityFound { query } => WebServerErrorView::ResourceExhausted {
            resource_type: "entity"@,
            details: "no entity found in query "@ + query@,
        },
        AccessFailure::TooManyEntities { query } => WebServerErrorView::ResourceExhausted {
            resource_type: "entity"@,
            details: "too many entities in query "@ + query@,
        },
        AccessFailure::ChildNotFound { index } => WebServerErrorView::ResourceExhausted {
            resource_type: "child"@,
            details: "child index "@ + decimal(index as nat) + " missing"@,
        },
        AccessFailure::NamedChildNotFound => WebServerErrorView::ResourceExhausted {
            resource_type: "child"@,
            details: "named child missing"@,
        },
        AccessFailure::TypedChildNotFound { query } => WebServerErrorView::ResourceExhausted {
            resource_type: "child"@,
            details: "child of type query "@ + query@ + " missing"@,
        },
        AccessFailure::TypedParentNotFound { query } => WebServerErrorView::ResourceExhausted {
            resource_type: "parent"@,
            details: "parent of type query "@ + query@ + " missing"@,
        },
        AccessFailure::ComponentNotFound { entity, name } =>
            WebServerErrorView::ResourceExhausted {
            resource_type: "component"@,
            details: "component <"@ + name@ + "> not found on entity "@ + entity@,
        },
        AccessFailure::ResourceNotFound { name } => WebServerErrorView::ResourceExhausted {
            resource_type: "resource"@,
            details: "resource <"@ + name@ + "> not found"@,
        },
        AccessFailure::AssetNotFound { name } => WebServerErrorView::ResourceExhausted {
            resource_type: "asset"@,
            details: "asset <"@ + name@ + "> not found"@,
        },
        AccessFailure::EventNotRegistered { name } => WebServerErrorView::ConfigError {
            field: "event_registration"@,
            reason: "event <"@ + name@ + "> not registered"@,
        },
        AccessFailure::DowncastFailed { name } => WebServerErrorView::ConfigError {
            field: "downcast"@,
            reason: "downcasting "@ + name@ + " failed"@,
        },
        AccessFailure::ScheduleNotFound => WebServerErrorView::ResourceExhausted {
            resource_type: "schedule"@,
            details: "schedule not found"@,
        },
        AccessFailure::SystemIdNotFound => WebServerErrorView::ResourceExhausted {
            resource_type: "system_id"@,
            details: "SystemId not found"@,
        },
        AccessFailure::NotInState { ty } => WebServerErrorView::ConfigError {
            field: "state"@,
            reason: "not in state of type "@ + ty@,
        },
        AccessFailure::Custom { message } => WebServerErrorView::ConfigError {
            field: "custom"@,
            reason: message@,
        },
        AccessFailure::TypedError { message, ty } => WebServerErrorView::ConfigError {
            field: ty@,
            reason: message@,
        },
        AccessFailure::ShouldNotHappen { text } => WebServerErrorView::ConfigError {
            field: "bevy_defer"@,
            reason: text@,
        },
        AccessFailure::Unrecognized { text } => WebServerErrorView::ConfigError {
            field: "bevy_defer::AccessError"@,
            reason: "unhandled non-exhaustive AccessError variant: "@ + text@,
        },
    }
}

impl WebServerError {
    /// Reports a failure to access the ECS world as a library error: missing
    /// entities, children, components, resources, assets, schedules and systems
    /// become `ResourceExhausted`; the other failures become `ConfigError`.
    pub fn from_access_failure(f: AccessFailure) -> (r: WebServerError)
        ensures
            r@ == access_failure_report(f),
    {
        match f {
            AccessFailure::EntityNotFound { entity } => WebServerError::ResourceExhausted {
                resource_type: owned("entity"),
                details: text3("entity ", entity.as_str(), " not found"),
            },
            AccessFailure::QueryConditionNotMet { entity, query } =>
                WebServerError::ResourceExhausted {
                resource_type: owned("query"),
                details: text4(
                    "query condition not met for entity ",
                    entity.as_str(),
                    ": ",
                    query.as_str(),
                ),
            },
            AccessFailure::NoEntityFound { query } => WebServerError::ResourceExhausted {
                resource_type: owned("entity"),
                details: text2("no entity found in query ", query.as_str()),
            },
            AccessFailure::TooManyEntities { query } => WebServerError::ResourceExhausted {
                resource_type: owned("entity"),
                details: text2("too many entities in query ", query.as_str()),
            },
            AccessFailure::ChildNotFound { index } => {
                let digits = decimal_text(index as u64);
                WebServerError::ResourceExhausted {
                    resource_type: owned("child"),
                    details: text3("child index ", digits.as_str(), " missing"),
                }
            },
            AccessFailure::NamedChildNotFound => WebServerError::ResourceExhausted {
                resource_type: owned("child"),
                details: owned("named child missing"),
            },
            AccessFailure::TypedChildNotFound { query } => WebServerError::ResourceExhausted {
                resource_type: owned("child"),
                details: text3("child of type query ", query.as_str(), " missing"),
            },
            AccessFailure::TypedParentNotFound { query } => WebServerError::ResourceExhausted {
                resource_type: owned("parent"),
                details: text3("parent of type query ", query.as_str(), " missing"),
            },
            AccessFailure::ComponentNotFound { entity, name } =>
                WebServerError::ResourceExhausted {
                resource_type: owned("component"),
                details: text4(
                    "component <",
                    name.as_str(),
                    "> not found on entity ",
                    entity.as_str(),
                ),
            },
            AccessFailure::ResourceNotFound { name } => WebServerError::ResourceExhausted {
                resource_type: owned("resource"),
                details: text3("resource <", name.as_str(), "> not found"),
            },
            AccessFailure::AssetNotFound { name } => WebServerError::ResourceExhausted {
                resource_type: owned("asset"),
                details: text3("asset <", name.as_str(), "> not found"),
            },
            AccessFailure::EventNotRegistered { name } => WebServerError::ConfigError {
                field: owned("event_registration"),
                reason: text3("event <", name.as_str(), "> not registered"),
            },
            AccessFailure::DowncastFailed { name } => WebServerError::ConfigError {
                field: owned("downcast"),
                reason: text3("downcasting ", name.as_str(), " failed"),
            },
            AccessFailure::ScheduleNotFound => WebServerError::ResourceExhausted {
                resource_type: owned("schedule"),
                details: owned("schedule not found"),
            },
            AccessFailure::SystemIdNotFound => WebServerError::ResourceExhausted {
                resource_type: owned("system_id"),
                details: owned("SystemId not found"),
            },
            AccessFailure::NotInState { ty } => WebServerError::ConfigError {
                field: owned("state"),
                reason: text2("not in state of type ", ty.as_str()),
            },
            AccessFailure::Custom { message } => WebServerError::ConfigError {
                field: owned("custom"),
                reason: message,
            },
            AccessFailure::TypedError { message, ty } => WebServerError::ConfigError {
                field: ty,
                reason: message,
            },
            AccessFailure::ShouldNotHappen { text } => WebServerError::ConfigError {
                field: owned("bevy_defer"),
                reason: text,
            },
            AccessFailure::Unrecognized { text } => WebServerError::ConfigError {
                field: owned("bevy_defer::AccessError"),
                reason: text2("unhandled non-exhaustive AccessError variant: ", text.as_str()),
            },
        }
    }
}

} // verus!

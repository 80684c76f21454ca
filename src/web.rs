//! What the web layer shows of model errors, and its configuration.

use vstd::prelude::*;
use crate::error::{Error, ErrorV};

verus! {

/// The error a client is shown: nothing of the internals.
#[allow(non_camel_case_types)]
#[derive(Debug, Clone)]
pub enum ClientError {
    ENTITY_NOT_FOUND { entity: String, id: i64 },
    SERVICE_ERROR,
}

/// The HTTP status and the client error for a model error: a missing
/// entity is a 404 that names it; anything else is a 500 service error.
pub fn client_status_and_error(e: &Error) -> (r: (u16, ClientError))
    ensures
        match e@ {
            ErrorV::EntityNotFound { entity, id } => r.0 == 404 && (r.1 matches ClientError::ENTITY_NOT_FOUND {
                entity: en,
                id: i,
            } && en@ == entity && i == id),
            ErrorV::PlanUrlNotFound { .. } | ErrorV::UserWebIdNotFound { .. } => r.0 == 404 && r.1 is SERVICE_ERROR,
            _ => r.0 == 500 && r.1 is SERVICE_ERROR,
        },
{
    match e {
        Error::EntityNotFound { entity, id } => (
            404,
            ClientError::ENTITY_NOT_FOUND { entity: entity.clone(), id: *id },
        ),
        Error::PlanUrlNotFound { .. } | Error::UserWebIdNotFound { .. } => (
            404,
            ClientError::SERVICE_ERROR,
        ),
        _ => (500, ClientError::SERVICE_ERROR),
    }
}

/// Settings of the web service.
#[allow(non_snake_case)]
#[derive(Debug, Clone)]
pub struct WebConfig {
    pub WEB_FOLDER: String,
}

} // verus!

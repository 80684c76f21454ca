//! The request context handed to the model layer.

use vstd::prelude::*;

verus! {

/// Errors of context creation.
#[derive(Debug, Clone, Copy, PartialEq, Eq, Structural)]
pub enum CtxError {
    CtxCannotNewRootCtx,
}

/// What the model layer knows of the request: the plan slug it concerns, if any.
#[derive(Debug, Clone)]
pub struct Ctx {
    url_id: Option<String>,
}

impl Ctx {
    /// The plan slug of the context, if any.
    pub closed spec fn spec_url_id(&self) -> Option<Seq<char>> {
        match self.url_id {
            Some(s) => Some(s@),
            None => None,
        }
    }

    /// The context of the service itself, tied to no plan.
    pub fn root_ctx() -> (r: Ctx)
        ensures
            r.spec_url_id() is None,
    {
        Ctx { url_id: None }
    }

    /// The context of a request on the plan `url_id`.
    pub fn new(url_id: &str) -> (r: Result<Ctx, CtxError>)
        ensures
            r matches Ok(c) && c.spec_url_id() == Some(url_id@),
    {
        Ok(Ctx { url_id: Some(url_id.to_owned()) })
    }

    pub fn url_id(&self) -> (r: Option<String>)
        ensures
            match r {
                Some(s) => self.spec_url_id() == Some(s@),
                None => self.spec_url_id() is None,
            },
    {
        match &self.url_id {
            Some(s) => Some(s.clone()),
            None => None,
        }
    }
}

/// A context resolved for a request, as the extractor hands it out.
#[derive(Debug, Clone)]
pub struct CtxW(pub Ctx);

/// Why no context could be resolved for a request.
#[derive(Debug, Clone)]
pub enum CtxExtError {
    UrlIdWrongFormat,
    UrlIdNotFound,
    ModelAccessError(String),
    CtxNotInRequestExt,
    CtxCreateFail(String),
}

} // verus!

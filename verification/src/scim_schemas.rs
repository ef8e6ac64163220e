//! The SCIM 2.0 resource and message shapes (RFC 7643/7644) that the HTTP API exchanges.
use vstd::prelude::*;
use crate::text::owned;

verus! {

/// Core schema of a user resource.
pub const USER_SCHEMA: &'static str = "urn:ietf:params:scim:schemas:core:2.0:User";

/// Core schema of a group resource.
pub const GROUP_SCHEMA: &'static str = "urn:ietf:params:scim:schemas:core:2.0:Group";

/// Schema of a list response.
pub const LIST_RESPONSE_SCHEMA: &'static str = "urn:ietf:params:scim:api:messages:2.0:ListResponse";

/// Schema of an error response.
pub const ERROR_SCHEMA: &'static str = "urn:ietf:params:scim:api:messages:2.0:Error";

/// An e-mail address of a SCIM user.
#[derive(Debug)]
pub struct ScimEmail {
    pub value: String,
    pub email_type: Option<String>,
    pub primary: Option<bool>,
}

/// The name parts of a SCIM user.
#[derive(Debug)]
pub struct ScimName {
    pub formatted: Option<String>,
    pub family_name: Option<String>,
    pub given_name: Option<String>,
}

/// Resource metadata.
#[derive(Debug)]
pub struct ScimMeta {
    pub resource_type: String,
    pub created: String,
    pub last_modified: String,
    pub location: String,
    pub version: Option<String>,
}

/// A group that a SCIM user belongs to.
#[derive(Debug)]
pub struct ScimUserGroup {
    pub value: String,
    pub reference: String,
    pub display: Option<String>,
}

/// A SCIM user resource.
#[derive(Debug)]
pub struct ScimUser {
    pub schemas: Vec<String>,
    pub id: Option<String>,
    pub external_id: Option<String>,
    pub user_name: String,
    pub name: Option<ScimName>,
    pub display_name: Option<String>,
    pub emails: Option<Vec<ScimEmail>>,
    pub active: Option<bool>,
    pub groups: Option<Vec<ScimUserGroup>>,
    pub meta: Option<ScimMeta>,
}

/// A member of a SCIM group.
#[derive(Debug)]
pub struct ScimGroupMember {
    pub value: String,
    pub reference: Option<String>,
    pub display: Option<String>,
}

/// A SCIM group resource.
#[derive(Debug)]
pub struct ScimGroup {
    pub schemas: Vec<String>,
    pub id: Option<String>,
    pub display_name: String,
    pub members: Option<Vec<ScimGroupMember>>,
    pub meta: Option<ScimMeta>,
}

/// A page of resources.
#[derive(Debug)]
pub struct ScimListResponse<T> {
    pub schemas: Vec<String>,
    pub total_results: usize,
    pub items_per_page: usize,
    pub start_index: usize,
    pub resources: Vec<T>,
}

/// A SCIM error response.
#[derive(Debug)]
pub struct ScimError {
    pub schemas: Vec<String>,
    pub status: String,
    pub scim_type: Option<String>,
    pub detail: Option<String>,
}

/// A list holding the one schema `schema`.
pub fn single_schema(schema: &str) -> (r: Vec<String>)
    ensures
        r@.len() == 1,
        r@[0]@ == schema@,
{
    let mut r: Vec<String> = Vec::new();
    r.push(owned(schema));
    r
}

impl ScimError {
    /// An error response with HTTP status text `status`.
    pub fn new(status: &str, scim_type: Option<String>, detail: Option<String>) -> (r: ScimError)
        ensures
            r.schemas@.len() == 1,
            r.schemas@[0]@ == ERROR_SCHEMA@,
            r.status@ == status@,
            r.scim_type == scim_type,
            r.detail == detail,
    {
        ScimError { schemas: single_schema(ERROR_SCHEMA), status: owned(status), scim_type, detail }
    }
}

} // verus!

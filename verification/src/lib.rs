//! Verified core of a small analytics administration service: the project
//! and user tables it keeps, the access scopes of users, the checks that the
//! login middleware makes, and the validation of its configuration.

pub mod text;
pub mod uuid_text;
pub mod scope;
pub mod reply;
pub mod projects;
pub mod credentials;
pub mod env;
pub mod users;
pub mod project_routes;
pub mod user_routes;
pub mod middleware;

//! Resolves the pull request, and the work items linked to it, that introduced
//! a commit of an Azure DevOps repository.
//!
//! The library holds the decisions: reading a remote locator into repository
//! coordinates, choosing the first pull request whose commits hold the target
//! commit, reading work item identifiers, and assembling the report under a
//! partial-success policy. Talking to the service is left to the caller.
pub mod locator;
pub mod report;
pub mod resolver;
pub mod text;

//! Git hosting services: GitHub, Gitea and GitLab.
pub mod backend;
pub mod gitea_client;
pub mod github_client;
pub mod github_graphql;
pub mod gitlab_client;

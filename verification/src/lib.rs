//! Verified core of the Coolapk desktop client: request classification,
//! cookie handling, query construction, content extraction and file naming.

pub mod text;
pub mod paths;
pub mod cookie;
pub mod query;
pub mod image;
pub mod html;
pub mod url;
pub mod outside;
pub mod device;
pub mod agent;
pub mod callback;
pub mod window;
pub mod files;
pub mod downloads;
pub mod notify;
pub mod json;
pub mod feed;
pub mod apk;
pub mod api;
pub mod jsontext;
pub mod upload;
pub mod replies;
pub mod media;
pub mod accounts;
pub mod search;
pub mod lists;
pub mod topic;
pub mod usertab;
pub mod relations;
pub mod collections;
pub mod feedlist;
pub mod login;
pub mod requests;
pub mod forms;
pub mod endpoints;
pub mod update;
pub mod identity;

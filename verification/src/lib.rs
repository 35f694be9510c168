//! Provisioning rules for Java runtimes and mod loaders: version and
//! platform resolution, download planning, classpath assembly and
//! launch-archive synthesis, each stated as a contract and proved.

pub mod about;
pub mod archive;
pub mod auth;
pub mod decimal;
pub mod forge;
pub mod forge_descriptor;
pub mod forge_install;
pub mod forge_libraries;
pub mod forge_program;
pub mod java;
pub mod java_files;
pub mod java_install;
pub mod jobs;
pub mod json;
pub mod launch_jar;
pub mod manifest;
pub mod paths;
pub mod pattern;
pub mod print;
pub mod request;
pub mod services;
pub mod text;

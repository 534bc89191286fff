//! Verified core of a code-assistant that summarizes source files as YAML,
//! keeps chat histories as trees, and renders project pages.
pub mod text;
pub mod imports;
pub mod pattern;
pub mod json;
pub mod python;
pub mod javascript;
pub mod models;
pub mod yaml_processing;
pub mod html;
pub mod chat;
pub mod paths;
pub mod sort;
pub mod agent;
pub mod agent_flow;
pub mod agent_service;
pub mod embedding;
pub mod file_service;
pub mod template;
pub mod llm;
pub mod services;
pub mod yaml_service;
pub mod env_settings;

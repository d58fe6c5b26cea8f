//! Organization profiles, shared settings and the pure decisions of the
//! Worklogger desktop client, with their contracts.

pub mod text;
pub mod profile;
pub mod profile_laws;
pub mod settings;
pub mod settings_laws;
pub mod storage;
pub mod analytics;
pub mod categories;
pub mod report;
pub mod report_laws;
pub mod calendar;
pub mod report_text;
pub mod sheet_layout;
pub mod periods;
pub mod period_laws;
pub mod period_text;
pub mod team;
pub mod team_laws;
pub mod team_filter_text;
pub mod team_analytics;
pub mod team_members;
pub mod team_report;
pub mod messages;
pub mod connection;
pub mod toolkit;
pub mod worklog_form;
pub mod worklog_form_laws;
pub mod file_names;
pub mod forms;
pub mod setup;
pub mod mcp;
pub mod desktop_settings;
pub mod desktop_settings_laws;

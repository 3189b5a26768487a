//! The decision logic of a Bilibili synchroniser, stated and proved.

pub mod batch;
pub mod clock;
pub mod danmaku;
pub mod decimal;
pub mod details;
pub mod entity;
pub mod failure;
pub mod fill;
pub mod folder;
pub mod folder_name;
pub mod format_arg;
pub mod layout;
pub mod migration;
pub mod notification;
pub mod page;
pub mod push;
pub mod refresh;
pub mod repair;
pub mod repaired;
pub mod scan_message;
pub mod source_run;
pub mod source_update;
pub mod sql;
pub mod stream;
pub mod tables;
pub mod task_state;
pub mod text;


//! Service identifiers and their protocol versions.

use vstd::prelude::*;

verus! {

pub const FILESYSTEM: &'static str = "bpl.filesystem";
pub const FILESYSTEM_VERSION: u32 = 1;

pub const SYNC: &'static str = "bpl.sync";
pub const SYNC_VERSION: u32 = 1;

pub const PHOTO_BACKUP: &'static str = "bpl.photo_backup";
pub const PHOTO_BACKUP_VERSION: u32 = 1;

pub const SHELL: &'static str = "bpl.shell";
pub const SHELL_VERSION: u32 = 1;

pub const MEDIA_CONTROL: &'static str = "bpl.media_control";
pub const MEDIA_CONTROL_VERSION: u32 = 1;

pub const PHONE_FS: &'static str = "bpl.phone_fs";
pub const PHONE_FS_VERSION: u32 = 1;

pub const PROXIMITY: &'static str = "bpl.proximity";
pub const PROXIMITY_VERSION: u32 = 1;

pub const FILE_STREAM: &'static str = "bpl.file_stream";
pub const FILE_STREAM_VERSION: u32 = 1;

pub const APP_LAUNCHER: &'static str = "bpl.app_launcher";
pub const APP_LAUNCHER_VERSION: u32 = 1;

pub const CONFIG: &'static str = "bpl.config";
pub const CONFIG_VERSION: u32 = 1;

} // verus!

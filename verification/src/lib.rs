//! Backup and restore of game directories with `rclone`: the verified
//! decisions of the `backup-games` tool (change tracking, exclusion, where
//! things are copied, how the manifest and configuration are read and
//! written). The program around it performs the actions these decisions ask
//! for.
pub mod text;
pub mod number;
pub mod sorted_map;
pub mod manifest;
pub mod paths;
pub mod config;
pub mod copy;
pub mod backup;
pub mod restore;
pub mod system;
pub mod update;

//! The rules of a manager for Minecraft server instances.

pub mod api;
pub mod archive;
pub mod backup;
pub mod backup_laws;
pub mod ban;
pub mod config;
pub mod course_laws;
pub mod dash_laws;
pub mod datapack_mgr;
pub mod digest;
pub mod discord;
pub mod ftb;
pub mod host_laws;
pub mod import;
pub mod import_laws;
pub mod instance;
pub mod instance_laws;
pub mod java;
pub mod metrics;
pub mod metrics_db;
pub mod life_laws;
pub mod list_laws;
pub mod mod_mgr;
pub mod mod_mgr_laws;
pub mod modpack;
pub mod modrinth;
pub mod name_laws;
pub mod order;
pub mod pack_laws;
pub mod path_laws;
pub mod paths;
pub mod properties;
pub mod properties_laws;
pub mod restart;
pub mod schedule_laws;
pub mod scheduler;
pub mod setup;
pub mod setup_laws;
pub mod slug;
pub mod sse;
pub mod state;
pub mod text;
pub mod text_laws;
pub mod time;
pub mod update_all;
pub mod update_laws;
pub mod whitelist;

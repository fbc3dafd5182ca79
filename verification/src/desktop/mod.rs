pub mod connect;
pub mod fonts;
pub mod forward;
pub mod input;
pub mod installer;
pub mod keys;
pub mod line;
pub mod paint;
pub mod profiles;
pub mod quick;
pub mod recording;
pub mod screen;
pub mod search;
pub mod session;
pub mod settings;
pub mod sftp;
pub mod shell;
pub mod tabs;
pub mod terminal;
pub mod trzsz;
pub mod units;
pub mod update;
pub mod version;

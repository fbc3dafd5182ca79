pub mod assoc;
pub mod audio;
pub mod bytes;
pub mod desktop;
pub mod environment;
pub mod forwarding;
pub mod ide;
pub mod json;
pub mod network_proxy;
pub mod order;
pub mod paths;
pub mod plugin;
pub mod portable;
pub mod preview;
pub mod remote_desktop;
pub mod sorting;
pub mod text;
pub mod wiped;

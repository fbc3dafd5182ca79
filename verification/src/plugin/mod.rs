pub mod capabilities;
pub mod contributions;
pub mod declarative_ui;
pub mod events;
pub mod manifest;
pub mod protocol;
pub mod registry;
pub mod rules;
pub mod scp;
pub mod wasm_runtime;

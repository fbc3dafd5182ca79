pub mod certificate_store;
pub mod frame;
pub mod frame_queue;
pub mod request_writer;
pub mod secret;

pub mod input;
pub mod pcm;

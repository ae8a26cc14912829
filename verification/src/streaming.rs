pub mod audio_stream;

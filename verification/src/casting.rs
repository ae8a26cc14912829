pub mod airplay;
pub mod chromecast;

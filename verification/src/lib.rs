//! Detection, parsing and notification logic of the DNA Assistant screen monitor.
pub mod capture;
pub mod color;
pub mod config;
pub mod detector;
pub mod event;
pub mod frame;
pub mod greeting;
pub mod imaging;
pub mod monitor;
pub mod notification;
pub mod ocr;
pub mod roi;
pub mod settings;
pub mod round_number;
pub mod state;
pub mod telemetry;
pub mod text;
pub mod titlebar;

//! The logic of a desktop temperature tracker: reading cached rows, planning
//! requests to a weather service, summarising hourly temperatures by local
//! day, preparing a plot, and the state of the window itself.

pub mod binary64;
pub mod cache;
pub mod calendar;
pub mod daily;
pub mod daily_laws;
pub mod date_text;
pub mod frame;
pub mod hover;
pub mod meteo;
pub mod plot;
pub mod records;
pub mod session;
pub mod text;
pub mod utc;
pub mod weather_app;
pub mod whitespace;


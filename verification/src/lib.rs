//! Color calibration of a display: the color management protocol as a state machine, a swatch
//! window on two buffers, and the report of a colorimeter.
pub mod app;
pub mod app_laws;
pub mod app_model;
pub mod app_step_laws;
pub mod color;
pub mod color_laws;
pub mod color_model;
pub mod color_step_laws;
pub mod description;
pub mod description_laws;
pub mod description_step_laws;
pub mod double;
pub mod double_laws;
pub mod double_value_laws;
pub mod effect;
pub mod events;
pub mod fault;
pub mod number;
pub mod number_laws;
pub mod parameters;
pub mod pixel;
pub mod pixel_laws;
pub mod protocol;
pub mod reading_laws;
pub mod spotread;
pub mod spotread_laws;
pub mod text;
pub mod wire_laws;

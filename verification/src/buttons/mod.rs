pub mod set_button;
pub mod start_button;

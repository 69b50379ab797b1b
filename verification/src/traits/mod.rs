pub mod convert_countdown;

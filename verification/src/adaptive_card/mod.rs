pub mod styles;

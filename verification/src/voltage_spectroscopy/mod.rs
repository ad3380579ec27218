//! Voltage spectroscopy data reader.
//! (`.jpk-voltage-ramp`)
pub mod v2_0;

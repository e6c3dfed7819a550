pub mod fft;
pub mod surface;

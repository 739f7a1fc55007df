pub mod dtw;

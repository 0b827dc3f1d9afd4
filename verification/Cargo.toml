[package]
name = "grid_ink"
version = "0.1.0"
edition = "2021"
publish = false

[dependencies]
sudoku = "*"
libremarkable = "*"
once_cell = "*"

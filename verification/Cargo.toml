[package]
name = "lib_thread"
version = "0.1.0"
edition = "2021"
publish = false

[dependencies]
rand = "0.7"
piston = "*"
piston2d-graphics = "*"
pistoncore-glutin_window = "*"
piston2d-opengl_graphics = "*"
piston_window = "*"
piston2d-deform_grid = "*"
piston2d-drag_controller = "*"

[package]
name = "doodad_editor"
version = "0.1.0"
edition = "2021"
publish = false

[dependencies]
sdl2 = { version = "*", features = ["image"] }
imgui = "*"
imgui-opengl-renderer = "*"
imgui-sdl2 = "*"
gl = "*"

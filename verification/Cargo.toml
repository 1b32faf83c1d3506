[package]
name = "hiker_charts"
version = "0.1.0"
edition = "2021"
publish = false

[dependencies]
csv = "1"
serde = { version = "1", features = ["derive"] }
serde_yml = "0.0"
plotters = { version = "0.3", default-features = false, features = ["svg_backend", "line_series", "point_series", "area_series", "histogram"] }
egui = "0.32"
eframe = { version = "0.32", default-features = false, features = ["default_fonts", "glow", "wayland", "x11"] }
resvg = "0.47"

[package]
name = "bevy_craft"
version = "0.1.0"
edition = "2021"
publish = false

[dependencies]
bevy = { version = "=0.16.1", default-features = false, features = ["std", "bevy_asset", "bevy_core_pipeline", "bevy_log", "bevy_pbr", "bevy_render", "bevy_sprite", "bevy_state", "bevy_window", "png"] }
bevy_asset_loader = { version = "=0.23.0", default-features = false, features = ["3d", "standard_dynamic_assets"] }
derive_more = { version = "=2.1.1", features = ["display", "error", "from", "into_iterator"] }
noise = "=0.9.0"
serde = { version = "=1.0.229", features = ["derive"] }
serde_json = "=1.0.154"
topo_sort = "=0.4.0"

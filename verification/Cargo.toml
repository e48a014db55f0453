[package]
name = "slurpslurp"
version = "0.1.0"
edition = "2021"
publish = false

[dependencies]
chrono = "0.4"
clap = { version = "4", features = ["derive"] }
discord_client_structs = "0.2"
lazy_static = "1"
log = "0.4"
mime = "0.3"
mime_guess = "2"
pretty_env_logger = "0.5"
progress_bar = "1"
sanitise-file-name = "1"
serde = { version = "1", features = ["derive"] }
serde_json = "1"
tempfile = "3"
tokio = { version = "1", features = ["full"] }
tokio-postgres = { version = "0.7", features = ["with-serde_json-1", "with-chrono-0_4"] }
toml = "0.9"
tree_magic_mini = "3"
urlencoding = "2"

[package]
name = "nu_plugin_gitql"
version = "0.1.0"
edition = "2021"
publish = false

[dependencies]
chrono = "=0.4.45"
csv = "=1.4.0"
gitql-ast = "=0.26.0"
gitql-cli = "=0.29.0"
gitql-core = "=0.6.0"
gitql-engine = "=0.29.0"
gitql-parser = "=0.28.0"
gitql-std = "=0.6.0"
gix = { version = "=0.90.0", default-features = false, features = ["sha1"] }
nu-plugin = { version = "=0.114.1", default-features = false }
nu-protocol = { version = "=0.114.1", default-features = false }
serde_json = "=1.0.154"

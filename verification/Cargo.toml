[package]
name = "fault_repair"
version = "0.1.0"
edition = "2021"
publish = false

[dependencies]
regex = "1"
syn = { version = "2", features = ["full", "visit-mut", "extra-traits"] }
prettyplease = "0.2"
proc-macro2 = { version = "1", features = ["span-locations"] }
quote = "1"
serde = { version = "1", features = ["derive"] }
serde_json = "1"
diesel = { version = "2", features = ["mysql"] }
rustc_data_structures = "*"
rustc_span = "*"

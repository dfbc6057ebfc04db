[package]
name = "stryke-azure"
version = "0.1.0"
edition = "2021"
publish = false

[dependencies]
azure_core = "=1.0.0"
azure_data_cosmos = "=0.35.0"
azure_identity = "=1.0.0"
azure_security_keyvault_keys = "=1.0.1"
azure_security_keyvault_secrets = "=1.0.1"
azure_storage_blob = "=1.0.0"
azure_storage_queue = "=1.0.0"
base64 = "=0.22.1"
futures = "0.3"
once_cell = "1"
serde_json = { version = "1", features = ["preserve_order"] }
tokio = { version = "1", features = ["rt-multi-thread"] }
url = "=2.5.8"

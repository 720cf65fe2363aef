[package]
name = "prfc2_registry"
version = "0.1.0"
edition = "2021"
publish = false

[dependencies]
base64url = "=0.1.0"
borsh = "=0.10.2"
pchain-sdk = "=0.4.2"
pchain-types = "=0.4.3"

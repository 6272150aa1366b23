[package]
name = "modular_agent_audio"
version = "0.1.0"
edition = "2021"
publish = false

[dependencies]
base64 = "0.22"
cpal = "0.17"
log = "0.4"
modular-agent-core = { version = "0.33", default-features = false }
rodio = "0.20"
rtrb = "0.3"
rubato = "0.16"
sherpa-onnx = "*"
whisper-rs = "0.15"

[package]
name = "reqrep_gateway"
version = "0.1.0"
edition = "2021"
publish = false

[dependencies]
actix-cors = "0.7"
actix-rt = "2"
actix-web = "4"
zmq = "0.10"

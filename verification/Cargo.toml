[package]
name = "jinkela"
version = "0.1.0"
edition = "2021"
publish = false

[dependencies]
prost = "*"
prost-types = "*"
prost-build = "*"
protobuf = "2"
protobuf-codegen = "2"
protoc = "2"
grpcio-compiler = "*"

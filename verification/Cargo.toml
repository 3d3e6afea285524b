[package]
name = "hyper_render"
version = "0.1.0"
edition = "2021"
publish = false

[dependencies]
png = "=0.18.1"
thiserror = "=2.0.21"
krilla = "=0.8.2"
parley = "=0.6.0"
stylo = "=0.8.0"
blitz-dom = "=0.2.4"
blitz-html = "=0.2.0"
blitz-traits = "=0.2.0"
blitz-paint = "=0.2.1"
anyrender = "=0.6.2"
anyrender_vello_cpu = "=0.7.0"
linebender_resource_handle = "=0.1.1"

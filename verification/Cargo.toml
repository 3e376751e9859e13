[package]
name = "netmapper"
version = "0.1.0"
edition = "2021"
publish = false

[dependencies]
petgraph = "*"
pnet = "*"
rand = "*"
dns-lookup = "*"
local-ip-address = "*"
ipnet = "*"
chrono = "*"
home = "*"

[package]
name = "sortable_table"
version = "0.1.0"
edition = "2021"
publish = false

[dependencies]
dioxus = "=0.4.3"
dioxus-sortable = "=0.1.2"

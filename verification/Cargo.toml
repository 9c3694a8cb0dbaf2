[package]
name = "dex_analytics"
version = "0.1.0"
edition = "2021"
publish = false

[dependencies]
bigdecimal = "0.3"
bs58 = "0.5"
handlebars = "5"
mail-send = "0.4"
num-traits = "0.2"
pg_bigdecimal = "0.1"
rand = "0.8"
rocket = { version = "0.5", features = ["json"] }
rocket_db_pools = { version = "0.2", features = ["sqlx_postgres"] }
sqlx = { version = "0.7", default-features = false, features = ["postgres", "bigdecimal", "migrate"] }
time = { version = "0.3", features = ["formatting"] }

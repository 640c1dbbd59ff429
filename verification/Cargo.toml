[package]
name = "merchant_txns"
version = "0.1.0"
edition = "2021"
publish = false

[dependencies]
actix-web = { version = "4", default-features = false, features = ["macros"] }
anyhow = "1"
async-graphql = { version = "7", default-features = false, features = ["graphiql"] }
async-graphql-actix-web = "7"
aws-config = { version = "1", features = ["behavior-version-latest", "test-util"] }
aws-sdk-dynamodb = "1"
chrono = "0.4"
rand = "0.8"
serde = { version = "1", features = ["derive"] }
serde_dynamo = { version = "4", features = ["aws-sdk-dynamodb+1"] }
sqlx = { version = "0.8", default-features = false, features = ["postgres", "runtime-tokio", "derive"] }
strum_macros = "0.26"
tracing-subscriber = { version = "0.3", default-features = false, features = ["fmt"] }

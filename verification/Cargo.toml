[package]
name = "mail_session"
version = "0.1.0"
edition = "2021"
publish = false

[dependencies]
lettre = { version = "*", default-features = false, features = ["builder", "smtp-transport"] }
mailparse = "*"
mime_guess = "*"
imap = { version = "*", default-features = false }

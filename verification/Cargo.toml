[package]
name = "ytdlp_applet"
version = "0.2.7"
edition = "2021"
publish = false

[dependencies]
yt-dlp = "=2.10.0"
tokio = { version = "=1.54.1", features = ["full"] }
reqwest = "=0.13.5"
xdg = "=3.0.0"
xdg-user = "=0.3.0"
notify-rust = "=4.18.2"
ashpd = { version = "=0.13.13", features = ["file_chooser"] }
i18n-embed = { version = "=0.16.0", features = ["desktop-requester"] }

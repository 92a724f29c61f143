[package]
name = "imu_orientation"
version = "0.1.0"
edition = "2021"
publish = false

[dependencies]
anyhow = "1"
esp-idf-hal = "*"
esp-idf-svc = "*"
log = "0.4"
mpu6050-dmp = "*"

[package]
name = "zk_precompiles"
version = "0.1.0"
edition = "2021"
publish = false

[dependencies]
ark-bn254-zypher = { version = "=0.4.0", default-features = false, features = ["curve"] }
ark-ec-zypher = { version = "=0.4.2", default-features = false }
ark-ed-on-bn254-zypher = { version = "=0.4.0", default-features = false }
ark-ff-zypher = { version = "=0.4.2", default-features = false }
ark-std-zypher = { version = "=0.4.0", default-features = false }
bincode = "=1.3.3"
ethabi = { version = "=18.0.0", default-features = false }
primitive-types = { version = "=0.12.2", default-features = false }
uzkge = "=0.1.2"
zmatchmaking = "=0.1.2"
zshuffle = "=0.1.2"

[dev-dependencies]
rand_chacha = { version = "=0.3.1", default-features = false }

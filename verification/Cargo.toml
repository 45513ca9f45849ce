[package]
name = "paimon_ftindex_core"
version = "0.1.0"
edition = "2021"
publish = false

[dependencies]
levenshtein_automata = "=0.2.1"
roaring = "=0.12.0"
serde = { version = "=1.0.229", features = ["derive"] }
serde_json = "=1.0.154"
tantivy = "=0.26.2"
tantivy-fst = "=0.5.0"
tantivy-jieba = "=0.21.0"
tempfile = "=3.27.0"
